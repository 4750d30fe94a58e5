//! What one propagation allocates, uploads, dispatches and reads back.

use crate::lighting::gpu::engine::GpuLightEngine;
use crate::lighting::gpu::{
    ceil_div, dispatch_dims, dispatch_size, law_dispatch_covers, law_rounding_up, spv_words,
    GpuLightError, DIMS_BYTES, MEMORY_DEVICE_LOCAL, MEMORY_HOST_CACHED, MEMORY_HOST_VISIBLE,
    USAGE_STORAGE, USAGE_TRANSFER_DST, USAGE_TRANSFER_SRC, WORKGROUP_SIZE,
};
use crate::lighting::relaxation::PASSES;
use crate::lighting::volume::LightVolume;
use vstd::prelude::*;

verus! {

/// The buffers of one propagation.
#[derive(Clone, Copy, PartialEq, Eq, Debug, Structural)]
pub enum BufferRole {
    /// Sizes and voxel count.
    Dims,
    /// Voxel properties.
    Props,
    /// First light buffer; it is seeded.
    LightA,
    /// Second light buffer.
    LightB,
    /// Result, one byte per voxel.
    Packed,
    /// Host memory that holds dims, then props, then seed light, contiguously.
    Staging,
    /// Host memory that takes the result.
    Readback,
}

/// Size, usage and memory of a buffer.
#[derive(Clone, Copy, PartialEq, Eq, Debug, Structural)]
pub struct BufferSpec {
    pub role: BufferRole,
    pub size: u64,
    pub usage: u32,
    pub required: u32,
    pub preferred: u32,
}

/// The two compute pipelines.
#[derive(Clone, Copy, PartialEq, Eq, Debug, Structural)]
pub enum Pipeline {
    /// One wave of relaxation.
    Propagate,
    /// Packs levels to one byte per voxel.
    Pack,
}

/// One recorded command.
#[derive(Clone, Copy, PartialEq, Eq, Debug, Structural)]
pub enum GpuCommand {
    /// Copies `size` bytes from an offset of one buffer to the start of another.
    Copy { from: BufferRole, to: BufferRole, from_offset: u64, size: u64 },
    /// Shaders wait for transfers.
    AwaitTransfer,
    /// Shaders wait for the shader before them.
    AwaitShader,
    /// Transfers wait for shaders.
    AwaitResult,
    BindPipeline(Pipeline),
    /// Binds a descriptor set.
    BindSet(u32),
    /// Starts workgroups in X and Y.
    Dispatch(u32, u32),
}

/// A buffer bound to a slot of a descriptor set.
#[derive(Clone, Copy, PartialEq, Eq, Debug, Structural)]
pub struct Binding {
    pub set: u32,
    pub slot: u32,
    pub buffer: BufferRole,
}

/// Everything that one propagation does on the device.
pub struct PropagationPlan {
    pub buffers: Vec<BufferSpec>,
    pub bindings: Vec<Binding>,
    /// Words of the staging buffer.
    pub staging: Vec<u32>,
    pub upload: Vec<GpuCommand>,
    pub compute: Vec<GpuCommand>,
    pub readback: Vec<GpuCommand>,
}

/// Bytes of one light or property buffer: a word per voxel.
pub open spec fn byte_len(total: int) -> int {
    4 * total
}

/// Bytes of the packed result: one per voxel, rounded up to a whole word.
pub open spec fn packed_len(total: int) -> int {
    ceil_div(total, 4) * 4
}

pub open spec fn planned_buffers(total: int) -> Seq<BufferSpec> {
    let words = byte_len(total) as u64;
    let packed = packed_len(total) as u64;
    seq![
        BufferSpec {
            role: BufferRole::Dims,
            size: DIMS_BYTES,
            usage: USAGE_STORAGE | USAGE_TRANSFER_DST,
            required: MEMORY_DEVICE_LOCAL,
            preferred: 0,
        },
        BufferSpec {
            role: BufferRole::Props,
            size: words,
            usage: USAGE_STORAGE | USAGE_TRANSFER_DST,
            required: MEMORY_DEVICE_LOCAL,
            preferred: 0,
        },
        BufferSpec {
            role: BufferRole::LightA,
            size: words,
            usage: USAGE_STORAGE | USAGE_TRANSFER_DST,
            required: MEMORY_DEVICE_LOCAL,
            preferred: 0,
        },
        BufferSpec {
            role: BufferRole::LightB,
            size: words,
            usage: USAGE_STORAGE,
            required: MEMORY_DEVICE_LOCAL,
            preferred: 0,
        },
        BufferSpec {
            role: BufferRole::Packed,
            size: packed,
            usage: USAGE_STORAGE | USAGE_TRANSFER_SRC,
            required: MEMORY_DEVICE_LOCAL,
            preferred: 0,
        },
        BufferSpec {
            role: BufferRole::Staging,
            size: (DIMS_BYTES + 2 * byte_len(total)) as u64,
            usage: USAGE_TRANSFER_SRC,
            required: MEMORY_HOST_VISIBLE,
            preferred: 0,
        },
        BufferSpec {
            role: BufferRole::Readback,
            size: packed,
            usage: USAGE_TRANSFER_DST,
            required: MEMORY_HOST_VISIBLE,
            preferred: MEMORY_HOST_CACHED,
        },
    ]
}

/// Where a descriptor set reads light: A, B, B.
pub open spec fn set_source(set: int) -> BufferRole {
    if set == 0 {
        BufferRole::LightA
    } else {
        BufferRole::LightB
    }
}

/// Where a descriptor set writes: B, A, the packed result.
pub open spec fn set_target(set: int) -> BufferRole {
    if set == 0 {
        BufferRole::LightB
    } else if set == 1 {
        BufferRole::LightA
    } else {
        BufferRole::Packed
    }
}

/// Every set binds dims, properties, its source and its target, in this order.
pub open spec fn slot_buffer(set: int, slot: int) -> BufferRole {
    if slot == 0 {
        BufferRole::Dims
    } else if slot == 1 {
        BufferRole::Props
    } else if slot == 2 {
        set_source(set)
    } else {
        set_target(set)
    }
}

/// The bindings of the three descriptor sets, set by set.
pub open spec fn planned_bindings() -> Seq<Binding> {
    Seq::new(
        12,
        |i: int|
            Binding { set: (i / 4) as u32, slot: (i % 4) as u32, buffer: slot_buffer(i / 4, i % 4) },
    )
}

/// Dimensions and voxel count.
pub open spec fn planned_dims(volume: LightVolume) -> Seq<u32> {
    seq![volume.size_x, volume.size_y, volume.size_z, volume.spec_count() as u32]
}

/// Dimensions, voxel count, properties, and seed light widened to words.
pub open spec fn planned_staging(volume: LightVolume) -> Seq<u32> {
    planned_dims(volume) + volume.props@ + widened(volume.light@)
}

pub open spec fn planned_upload(total: int) -> Seq<GpuCommand> {
    seq![
        GpuCommand::Copy {
            from: BufferRole::Staging,
            to: BufferRole::Dims,
            from_offset: 0,
            size: DIMS_BYTES,
        },
        GpuCommand::Copy {
            from: BufferRole::Staging,
            to: BufferRole::Props,
            from_offset: DIMS_BYTES,
            size: byte_len(total) as u64,
        },
        GpuCommand::Copy {
            from: BufferRole::Staging,
            to: BufferRole::LightA,
            from_offset: (DIMS_BYTES + byte_len(total)) as u64,
            size: byte_len(total) as u64,
        },
    ]
}

pub open spec fn dispatch(items: int) -> GpuCommand {
    GpuCommand::Dispatch(dispatch_size(items).0 as u32, dispatch_size(items).1 as u32)
}

/// The first `k` waves: even ones go from A to B, odd ones from B to A.
pub open spec fn planned_waves(total: int, k: nat) -> Seq<GpuCommand>
    decreases k,
{
    if k == 0 {
        Seq::empty()
    } else {
        planned_waves(total, (k - 1) as nat) + seq![
            GpuCommand::BindSet(((k - 1) % 2) as u32),
            dispatch(total),
            GpuCommand::AwaitShader,
        ]
    }
}

pub open spec fn planned_compute(total: int) -> Seq<GpuCommand> {
    seq![GpuCommand::AwaitTransfer, GpuCommand::BindPipeline(Pipeline::Propagate)] + planned_waves(
        total,
        PASSES as nat,
    ) + seq![
        GpuCommand::BindPipeline(Pipeline::Pack),
        GpuCommand::BindSet(2),
        dispatch(ceil_div(total, 4)),
    ]
}

pub open spec fn planned_readback(total: int) -> Seq<GpuCommand> {
    seq![
        GpuCommand::AwaitResult,
        GpuCommand::Copy {
            from: BufferRole::Packed,
            to: BufferRole::Readback,
            from_offset: 0,
            size: packed_len(total) as u64,
        },
    ]
}

fn plan_buffers(total: usize, words: u64, packed: u64) -> (buffers: Vec<BufferSpec>)
    requires
        words <= u32::MAX,
        words == byte_len(total as int),
        packed == packed_len(total as int),
    ensures
        buffers@ == planned_buffers(total as int),
{
    let device_local: u32 = MEMORY_DEVICE_LOCAL;
    let host_visible: u32 = MEMORY_HOST_VISIBLE;
    let mut buffers: Vec<BufferSpec> = Vec::new();
    buffers.push(
        BufferSpec {
            role: BufferRole::Dims,
            size: DIMS_BYTES,
            usage: USAGE_STORAGE | USAGE_TRANSFER_DST,
            required: device_local,
            preferred: 0,
        },
    );
    buffers.push(
        BufferSpec {
            role: BufferRole::Props,
            size: words,
            usage: USAGE_STORAGE | USAGE_TRANSFER_DST,
            required: device_local,
            preferred: 0,
        },
    );
    buffers.push(
        BufferSpec {
            role: BufferRole::LightA,
            size: words,
            usage: USAGE_STORAGE | USAGE_TRANSFER_DST,
            required: device_local,
            preferred: 0,
        },
    );
    buffers.push(
        BufferSpec {
            role: BufferRole::LightB,
            size: words,
            usage: USAGE_STORAGE,
            required: device_local,
            preferred: 0,
        },
    );
    buffers.push(
        BufferSpec {
            role: BufferRole::Packed,
            size: packed,
            usage: USAGE_STORAGE | USAGE_TRANSFER_SRC,
            required: device_local,
            preferred: 0,
        },
    );
    buffers.push(
        BufferSpec {
            role: BufferRole::Staging,
            size: DIMS_BYTES + words * 2,
            usage: USAGE_TRANSFER_SRC,
            required: host_visible,
            preferred: 0,
        },
    );
    buffers.push(
        BufferSpec {
            role: BufferRole::Readback,
            size: packed,
            usage: USAGE_TRANSFER_DST,
            required: host_visible,
            preferred: MEMORY_HOST_CACHED,
        },
    );
    buffers
}

/// The three descriptor sets: A -> B, B -> A, B -> packed.
fn build_descriptors() -> (bindings: Vec<Binding>)
    ensures
        bindings@ == planned_bindings(),
{
    let mut bindings: Vec<Binding> = Vec::new();
    for set in 0..3u32
        invariant
            bindings@ =~= planned_bindings().take(4 * set as int),
    {
        let (from, to) = if set == 0 {
            (BufferRole::LightA, BufferRole::LightB)
        } else if set == 1 {
            (BufferRole::LightB, BufferRole::LightA)
        } else {
            (BufferRole::LightB, BufferRole::Packed)
        };
        bindings.push(Binding { set, slot: 0, buffer: BufferRole::Dims });
        bindings.push(Binding { set, slot: 1, buffer: BufferRole::Props });
        bindings.push(Binding { set, slot: 2, buffer: from });
        bindings.push(Binding { set, slot: 3, buffer: to });
    }
    bindings
}

fn stage(volume: &LightVolume, total: u32) -> (words: Vec<u32>)
    requires
        volume.wf(),
        total == volume.spec_count(),
    ensures
        words@ == planned_staging(*volume),
{
    let mut words: Vec<u32> = Vec::new();
    words.push(volume.size_x);
    words.push(volume.size_y);
    words.push(volume.size_z);
    words.push(total);
    let ghost header = words@;
    let count: usize = volume.props.len();
    for i in 0..count
        invariant
            count == volume.props@.len(),
            header.len() == 4,
            words@ =~= header + volume.props@.take(i as int),
    {
        words.push(volume.props[i]);
    }
    let ghost before = words@;
    let lit: usize = volume.light.len();
    let ghost seed = widened(volume.light@);
    for i in 0..lit
        invariant
            lit == volume.light@.len(),
            seed == widened(volume.light@),
            words@ =~= before + seed.take(i as int),
    {
        words.push(volume.light[i] as u32);
    }
    assert(before =~= header + volume.props@);
    assert(words@ =~= planned_staging(*volume));
    words
}

fn record_compute(total: u64) -> (commands: Vec<GpuCommand>)
    ensures
        commands@ == planned_compute(total as int),
{
    let (gx, gy) = dispatch_dims(total);
    let quads: u64 = if total % 4 > 0 {
        total / 4 + 1
    } else {
        total / 4
    };
    let (pgx, pgy) = dispatch_dims(quads);
    let mut commands: Vec<GpuCommand> = Vec::new();
    commands.push(GpuCommand::AwaitTransfer);
    commands.push(GpuCommand::BindPipeline(Pipeline::Propagate));
    let ghost header = commands@;
    for i in 0..PASSES
        invariant
            GpuCommand::Dispatch(gx, gy) == dispatch(total as int),
            commands@ =~= header + planned_waves(total as int, i as nat),
    {
        commands.push(GpuCommand::BindSet(i % 2));
        commands.push(GpuCommand::Dispatch(gx, gy));
        commands.push(GpuCommand::AwaitShader);
    }
    // The number of passes is odd, so the converged result lives in the second light buffer.
    commands.push(GpuCommand::BindPipeline(Pipeline::Pack));
    commands.push(GpuCommand::BindSet(2));
    commands.push(GpuCommand::Dispatch(pgx, pgy));
    assert(commands@ =~= planned_compute(total as int));
    commands
}

impl GpuLightEngine {
    /// Plans the propagation of block light through `volume` on this device.
    pub fn propagate(&self, volume: &LightVolume) -> (plan: Result<PropagationPlan, GpuLightError>)
        requires
            volume.wf(),
        ensures
            match plan {
                Ok(p) => {
                    let total = volume.spec_count();
                    &&& byte_len(total) <= self.max_storage_buffer
                    &&& p.buffers@ == planned_buffers(total)
                    &&& p.bindings@ == planned_bindings()
                    &&& p.staging@ == planned_staging(*volume)
                    &&& p.upload@ == planned_upload(total)
                    &&& p.compute@ == planned_compute(total)
                    &&& p.readback@ == planned_readback(total)
                },
                Err(e) => {
                    &&& byte_len(volume.spec_count()) > self.max_storage_buffer
                    &&& e == GpuLightError::VolumeTooLarge(volume.spec_count() as usize)
                },
            },
    {
        let total: usize = volume.voxel_count();
        let bytes: u128 = (total as u128) * 4;
        if bytes > self.max_storage_buffer as u128 {
            return Err(GpuLightError::VolumeTooLarge(total));
        }
        let words: u64 = bytes as u64;
        let quads: u64 = if total % 4 > 0 {
            (total / 4 + 1) as u64
        } else {
            (total / 4) as u64
        };
        let packed: u64 = quads * 4;
        assert(byte_len(total as int) == words && packed_len(total as int) == packed);
        let mut upload: Vec<GpuCommand> = Vec::new();
        upload.push(
            GpuCommand::Copy {
                from: BufferRole::Staging,
                to: BufferRole::Dims,
                from_offset: 0,
                size: DIMS_BYTES,
            },
        );
        upload.push(
            GpuCommand::Copy {
                from: BufferRole::Staging,
                to: BufferRole::Props,
                from_offset: DIMS_BYTES,
                size: words,
            },
        );
        upload.push(
            GpuCommand::Copy {
                from: BufferRole::Staging,
                to: BufferRole::LightA,
                from_offset: DIMS_BYTES + words,
                size: words,
            },
        );
        let mut readback: Vec<GpuCommand> = Vec::new();
        readback.push(GpuCommand::AwaitResult);
        readback.push(
            GpuCommand::Copy {
                from: BufferRole::Packed,
                to: BufferRole::Readback,
                from_offset: 0,
                size: packed,
            },
        );
        assert(upload@ =~= planned_upload(total as int));
        assert(readback@ =~= planned_readback(total as int));
        Ok(
            PropagationPlan {
                buffers: plan_buffers(total, words, packed),
                bindings: build_descriptors(),
                staging: stage(volume, total as u32),
                upload,
                compute: record_compute(total as u64),
                readback,
            },
        )
    }
}

/// Takes the packed result into the volume: one byte per voxel, in order.
pub fn store_readback(volume: &mut LightVolume, bytes: &[u8])
    requires
        old(volume).wf(),
        bytes@.len() >= old(volume).spec_count(),
    ensures
        final(volume).wf(),
        final(volume).same_world(*old(volume)),
        final(volume).light@ == bytes@.subrange(0, old(volume).spec_count()),
{
    let total: usize = volume.light.len();
    for i in 0..total
        invariant
            volume.wf(),
            volume.same_world(*old(volume)),
            total == volume.spec_count(),
            bytes@.len() >= total,
            forall|j: int| 0 <= j < i ==> volume.light@[j] == bytes@[j],
    {
        volume.light[i] = bytes[i];
    }
    assert(volume.light@ =~= bytes@.subrange(0, total as int));
}

/// Levels widened to words.
pub open spec fn widened(levels: Seq<u8>) -> Seq<u32> {
    Seq::new(levels.len(), |i: int| levels[i] as u32)
}

/// Levels that words hold.
pub open spec fn narrowed(words: Seq<u32>) -> Seq<u8> {
    Seq::new(words.len(), |i: int| words[i] as u8)
}

/// Level `i`, or darkness past the end.
pub open spec fn level_or_dark(levels: Seq<u8>, i: int) -> int {
    if 0 <= i < levels.len() {
        levels[i] as int
    } else {
        0
    }
}

/// Levels packed into words, four to a word, the first one lowest.
pub open spec fn packed_words(levels: Seq<u8>) -> Seq<u32> {
    Seq::new(
        ceil_div(levels.len() as int, 4) as nat,
        |i: int|
            (level_or_dark(levels, 4 * i) + 0x100 * level_or_dark(levels, 4 * i + 1) + 0x1_0000
                * level_or_dark(levels, 4 * i + 2) + 0x100_0000 * level_or_dark(
                levels,
                4 * i + 3,
            )) as u32,
    )
}

/// One of the four bytes of a word, the first one lowest.
pub open spec fn byte_of_word(word: u32, k: int) -> u8 {
    if k == 0 {
        (word as int % 0x100) as u8
    } else if k == 1 {
        (word as int / 0x100 % 0x100) as u8
    } else if k == 2 {
        (word as int / 0x1_0000 % 0x100) as u8
    } else {
        (word as int / 0x100_0000) as u8
    }
}

/// The bytes of words, as the host reads them.
pub open spec fn bytes_of(words: Seq<u32>) -> Seq<u8> {
    Seq::new(4 * words.len(), |j: int| byte_of_word(words[j / 4], j % 4))
}

/// Packing loses nothing: the bytes of the packed words are the levels, followed by padding.
proof fn lemma_packed_bytes(levels: Seq<u8>)
    ensures
        bytes_of(packed_words(levels)).len() >= levels.len(),
        bytes_of(packed_words(levels)).subrange(0, levels.len() as int) == levels,
{
    let words = packed_words(levels);
    let bytes = bytes_of(words);
    assert forall|j: int| 0 <= j < levels.len() implies bytes[j] == levels[j] by {
        let i = j / 4;
        let (a, b, c, d) = (
            level_or_dark(levels, 4 * i),
            level_or_dark(levels, 4 * i + 1),
            level_or_dark(levels, 4 * i + 2),
            level_or_dark(levels, 4 * i + 3),
        );
        let word = a + 0x100 * b + 0x1_0000 * c + 0x100_0000 * d;
        assert(words[i] == word);
        assert(word % 0x100 == a);
        assert(word / 0x100 % 0x100 == b);
        assert(word / 0x1_0000 % 0x100 == c);
        assert(word / 0x100_0000 == d);
    }
    assert(bytes.subrange(0, levels.len() as int) =~= levels);
}

/// A device that executes commands: the words in its buffers, and what is bound.
pub struct DeviceState {
    pub buffers: spec_fn(BufferRole) -> Seq<u32>,
    pub pipeline: Option<Pipeline>,
    pub set: int,
}

impl DeviceState {
    /// The words in a buffer.
    pub open spec fn buffer(self, role: BufferRole) -> Seq<u32> {
        (self.buffers)(role)
    }

    /// Every buffer has its planned size.
    pub open spec fn allocated(self, total: int) -> bool {
        forall|role: BufferRole|
            4 * (#[trigger] self.buffer(role)).len() == buffer_size(total, role)
    }

    /// The buffer in a slot of the bound descriptor set.
    pub open spec fn slot(self, slot: int) -> Seq<u32> {
        self.buffer(slot_buffer(self.set, slot))
    }

    /// The device with other words in a buffer.
    pub open spec fn with_buffer(self, role: BufferRole, words: Seq<u32>) -> DeviceState {
        DeviceState {
            buffers: |other: BufferRole|
                if other == role {
                    words
                } else {
                    self.buffer(other)
                },
            ..self
        }
    }

    /// The shaders find the sizes and the properties of a volume in the slots for them.
    pub open spec fn sees(self, volume: LightVolume) -> bool {
        &&& self.slot(0) == planned_dims(volume)
        &&& self.slot(1) == volume.props@
    }

    /// The effect of one command. A copy moves words to the start of its target. The propagation
    /// shader relaxes every voxel, the pack shader packs the levels of all; both go by the sizes
    /// and properties in their slots. No effect is given to a copy outside its buffers, nor to a
    /// dispatch that covers too little or finds other sizes or properties than those of `volume`.
    pub open spec fn after(self, volume: LightVolume, command: GpuCommand) -> DeviceState {
        match command {
            GpuCommand::Copy { from, to, from_offset, size } => {
                let (first, count) = (from_offset as int / 4, size as int / 4);
                if from_offset % 4 == 0 && size % 4 == 0 && first + count
                    <= self.buffer(from).len() && count <= self.buffer(to).len() {
                    self.with_buffer(
                        to,
                        self.buffer(from).subrange(first, first + count) + self.buffer(to).skip(
                            count,
                        ),
                    )
                } else {
                    self
                }
            },
            GpuCommand::BindPipeline(pipeline) => DeviceState { pipeline: Some(pipeline), ..self },
            GpuCommand::BindSet(set) => DeviceState { set: set as int, ..self },
            GpuCommand::Dispatch(gx, gy) => {
                let items = gx * gy * WORKGROUP_SIZE;
                match self.pipeline {
                    Some(Pipeline::Propagate) if self.sees(volume) && items >= volume.spec_count() =>
                        self.with_buffer(
                            slot_buffer(self.set, 3),
                            widened(volume.wave(narrowed(self.slot(2)))),
                        ),
                    Some(Pipeline::Pack) if self.sees(volume) && items >= ceil_div(
                        volume.spec_count(),
                        4,
                    ) => self.with_buffer(
                        slot_buffer(self.set, 3),
                        packed_words(narrowed(self.slot(2))),
                    ),
                    _ => self,
                }
            },
            GpuCommand::AwaitTransfer => self,
            GpuCommand::AwaitShader => self,
            GpuCommand::AwaitResult => self,
        }
    }

    pub open spec fn run(self, volume: LightVolume, commands: Seq<GpuCommand>) -> DeviceState
        decreases commands.len(),
    {
        if commands.len() == 0 {
            self
        } else {
            self.run(volume, commands.drop_last()).after(volume, commands.last())
        }
    }

    /// The device after everything that a plan for a volume does on it.
    pub open spec fn after_plan(self, volume: LightVolume) -> DeviceState {
        let total = volume.spec_count();
        self.run(volume, planned_upload(total)).run(volume, planned_compute(total)).run(
            volume,
            planned_readback(total),
        )
    }

    proof fn lemma_run_append(
        self,
        volume: LightVolume,
        first: Seq<GpuCommand>,
        then: Seq<GpuCommand>,
    )
        ensures
            self.run(volume, first + then) == self.run(volume, first).run(volume, then),
        decreases then.len(),
    {
        if then.len() == 0 {
            assert(first + then =~= first);
        } else {
            self.lemma_run_append(volume, first, then.drop_last());
            assert((first + then).drop_last() =~= first + then.drop_last());
        }
    }

    proof fn lemma_run_two(self, volume: LightVolume, c1: GpuCommand, c2: GpuCommand)
        ensures
            self.run(volume, seq![c1, c2]) == self.after(volume, c1).after(volume, c2),
    {
        reveal_with_fuel(DeviceState::run, 3);
        assert(seq![c1, c2].drop_last() =~= seq![c1]);
        assert(seq![c1].drop_last() =~= Seq::<GpuCommand>::empty());
    }

    proof fn lemma_run_three(
        self,
        volume: LightVolume,
        c1: GpuCommand,
        c2: GpuCommand,
        c3: GpuCommand,
    )
        ensures
            self.run(volume, seq![c1, c2, c3]) == self.after(volume, c1).after(volume, c2).after(
                volume,
                c3,
            ),
    {
        self.lemma_run_two(volume, c1, c2);
        assert(seq![c1, c2, c3].drop_last() =~= seq![c1, c2]);
    }

    /// A copy that fills its target leaves all other buffers alone.
    proof fn lemma_copy_fills(
        self,
        volume: LightVolume,
        from: BufferRole,
        to: BufferRole,
        from_offset: u64,
        size: u64,
    )
        requires
            self.allocated(volume.spec_count()),
            from_offset % 4 == 0,
            size % 4 == 0,
            from_offset + size <= 4 * self.buffer(from).len(),
            size == 4 * self.buffer(to).len(),
        ensures
            ({
                let after = self.after(volume, GpuCommand::Copy { from, to, from_offset, size });
                &&& after.allocated(volume.spec_count())
                &&& after.buffer(to) == self.buffer(from).subrange(
                    from_offset as int / 4,
                    (from_offset + size) / 4,
                )
                &&& forall|role: BufferRole|
                    role != to ==> #[trigger] after.buffer(role) == self.buffer(role)
            }),
    {
        let after = self.after(volume, GpuCommand::Copy { from, to, from_offset, size });
        let filled = self.buffer(from).subrange(
            from_offset as int / 4,
            (from_offset + size) / 4,
        );
        assert(filled + self.buffer(to).skip(size as int / 4) =~= filled);
        assert(after == self.with_buffer(to, filled));
        assert forall|role: BufferRole|
            4 * (#[trigger] after.buffer(role)).len() == buffer_size(volume.spec_count(), role) by {
            assert(4 * self.buffer(role).len() == buffer_size(volume.spec_count(), role));
        }
    }

    /// After `k` waves the buffer that the next wave reads holds `k` rounds of relaxation.
    proof fn lemma_run_waves(self, volume: LightVolume, k: nat)
        requires
            volume.wf(),
            byte_len(volume.spec_count()) <= u32::MAX,
            self.pipeline == Some(Pipeline::Propagate),
            self.buffer(BufferRole::Dims) == planned_dims(volume),
            self.buffer(BufferRole::Props) == volume.props@,
            k <= PASSES,
        ensures
            ({
                let end = self.run(volume, planned_waves(volume.spec_count(), k));
                let light = volume.waves(narrowed(self.buffer(BufferRole::LightA)), k);
                &&& end.pipeline == Some(Pipeline::Propagate)
                &&& forall|role: BufferRole|
                    role != BufferRole::LightA && role != BufferRole::LightB
                        ==> #[trigger] end.buffer(role) == self.buffer(role)
                &&& if k % 2 == 0 {
                    narrowed(end.buffer(BufferRole::LightA)) == light
                } else {
                    narrowed(end.buffer(BufferRole::LightB)) == light
                }
            }),
        decreases k,
    {
        if k > 0 {
            let total = volume.spec_count();
            let before = self.run(volume, planned_waves(total, (k - 1) as nat));
            self.lemma_run_waves(volume, (k - 1) as nat);
            let bind = GpuCommand::BindSet(((k - 1) % 2) as u32);
            self.lemma_run_append(
                volume,
                planned_waves(total, (k - 1) as nat),
                seq![bind, dispatch(total), GpuCommand::AwaitShader],
            );
            before.lemma_run_three(volume, bind, dispatch(total), GpuCommand::AwaitShader);
            law_dispatch_covers(total);
            assert(dispatch_size(total).0 as u32 == dispatch_size(total).0);
            assert(dispatch_size(total).1 as u32 == dispatch_size(total).1);
            let seed = narrowed(self.buffer(BufferRole::LightA));
            let light = volume.waves(seed, (k - 1) as nat);
            assert(volume.waves(seed, k) == volume.wave(light));
            let bound = before.after(volume, bind);
            assert(bound.buffers == before.buffers);
            assert(bound.buffer(BufferRole::Dims) == before.buffer(BufferRole::Dims));
            assert(bound.buffer(BufferRole::Props) == before.buffer(BufferRole::Props));
            assert(bound.sees(volume));
            let end = bound.after(volume, dispatch(total));
            assert(end == bound.with_buffer(set_target(bound.set), widened(volume.wave(light))));
            assert(narrowed(widened(volume.wave(light))) =~= volume.wave(light));
            assert forall|role: BufferRole|
                role != BufferRole::LightA && role != BufferRole::LightB implies #[trigger] end.buffer(
                role,
            ) == self.buffer(role) by {
                assert(before.buffer(role) == self.buffer(role));
                assert(bound.buffer(role) == before.buffer(role));
            }
        }
    }
}

/// Once a device has executed the upload of a plan, the buffers for them hold the sizes, the
/// properties and the light of the volume.
pub proof fn law_upload_fills_buffers(volume: LightVolume, start: DeviceState)
    requires
        volume.wf(),
        byte_len(volume.spec_count()) <= u32::MAX,
        start.allocated(volume.spec_count()),
        start.buffer(BufferRole::Staging) == planned_staging(volume),
    ensures
        ({
            let uploaded = start.run(volume, planned_upload(volume.spec_count()));
            &&& uploaded.buffer(BufferRole::Dims) == planned_dims(volume)
            &&& uploaded.buffer(BufferRole::Props) == volume.props@
            &&& uploaded.buffer(BufferRole::LightA) == widened(volume.light@)
            &&& uploaded.allocated(volume.spec_count())
        }),
{
    let total = volume.spec_count();
    let words = byte_len(total) as u64;
    let staging = planned_staging(volume);
    let (dims, props, light) = (BufferRole::Dims, BufferRole::Props, BufferRole::LightA);
    let commands = planned_upload(total);
    start.lemma_run_three(volume, commands[0], commands[1], commands[2]);
    assert(commands =~= seq![commands[0], commands[1], commands[2]]);
    let first = start.after(volume, commands[0]);
    start.lemma_copy_fills(volume, BufferRole::Staging, dims, 0, DIMS_BYTES);
    let second = first.after(volume, commands[1]);
    first.lemma_copy_fills(volume, BufferRole::Staging, props, DIMS_BYTES, words);
    second.lemma_copy_fills(
        volume,
        BufferRole::Staging,
        light,
        (DIMS_BYTES + words) as u64,
        words,
    );
    assert(staging.subrange(0, 4) =~= planned_dims(volume));
    assert(staging.subrange(4, 4 + total) =~= volume.props@);
    assert(staging.subrange(4 + total, 4 + 2 * total) =~= widened(volume.light@));
}

/// Once a device that holds a volume has executed the compute commands of a plan, the buffer for
/// the result holds the steady state of the volume, packed, whatever light in range the first
/// light buffer was seeded with.
pub proof fn law_plan_reaches_steady_state(volume: LightVolume, state: DeviceState)
    requires
        volume.wf(),
        byte_len(volume.spec_count()) <= u32::MAX,
        state.buffer(BufferRole::Dims) == planned_dims(volume),
        state.buffer(BufferRole::Props) == volume.props@,
        volume.in_range(narrowed(state.buffer(BufferRole::LightA))),
    ensures
        ({
            let end = state.run(volume, planned_compute(volume.spec_count()));
            let light = volume.waves(narrowed(state.buffer(BufferRole::LightA)), PASSES as nat);
            &&& volume.is_fixed_point(light)
            &&& end.buffer(BufferRole::Packed) == packed_words(light)
            &&& end.buffer(BufferRole::Readback) == state.buffer(BufferRole::Readback)
        }),
{
    let total = volume.spec_count();
    let bind = GpuCommand::BindPipeline(Pipeline::Propagate);
    let head = seq![GpuCommand::AwaitTransfer, bind];
    let waves = planned_waves(total, PASSES as nat);
    let pack = GpuCommand::BindPipeline(Pipeline::Pack);
    let set = GpuCommand::BindSet(2);
    let last = dispatch(ceil_div(total, 4));
    let tail = seq![pack, set, last];
    state.lemma_run_append(volume, head + waves, tail);
    state.lemma_run_append(volume, head, waves);
    state.lemma_run_two(volume, GpuCommand::AwaitTransfer, bind);
    let ready = state.run(volume, head);
    ready.lemma_run_waves(volume, PASSES as nat);
    let relaxed = ready.run(volume, waves);
    relaxed.lemma_run_three(volume, pack, set, last);
    assert(relaxed.buffer(BufferRole::Dims) == planned_dims(volume));
    assert(relaxed.buffer(BufferRole::Props) == volume.props@);
    assert(relaxed.buffer(BufferRole::Readback) == state.buffer(BufferRole::Readback));
    law_dispatch_covers(ceil_div(total, 4));
    assert(dispatch_size(ceil_div(total, 4)).0 as u32 == dispatch_size(ceil_div(total, 4)).0);
    assert(dispatch_size(ceil_div(total, 4)).1 as u32 == dispatch_size(ceil_div(total, 4)).1);
    volume.law_waves_converge(narrowed(state.buffer(BufferRole::LightA)));
}

/// Once a device has executed the readback of a plan, the buffer that the host reads holds the
/// packed result.
pub proof fn law_readback_brings_the_result(volume: LightVolume, state: DeviceState)
    requires
        volume.wf(),
        byte_len(volume.spec_count()) <= u32::MAX,
        4 * state.buffer(BufferRole::Packed).len() == buffer_size(
            volume.spec_count(),
            BufferRole::Packed,
        ),
        4 * state.buffer(BufferRole::Readback).len() == buffer_size(
            volume.spec_count(),
            BufferRole::Readback,
        ),
    ensures
        state.run(
            volume,
            planned_readback(volume.spec_count()),
        ).buffer(BufferRole::Readback) == state.buffer(BufferRole::Packed),
{
    let commands = planned_readback(volume.spec_count());
    state.lemma_run_two(volume, commands[0], commands[1]);
    assert(commands =~= seq![commands[0], commands[1]]);
    assert(state.run(volume, commands).buffer(BufferRole::Readback)
        =~= state.buffer(BufferRole::Packed));
}

/// What the host reads after a device has executed a whole plan is the one steady state of the
/// volume.
proof fn lemma_plan_reads_steady_state(
    volume: LightVolume,
    start: DeviceState,
    reference: Seq<u8>,
)
    requires
        volume.wf(),
        volume.in_range(volume.light@),
        byte_len(volume.spec_count()) <= u32::MAX,
        start.allocated(volume.spec_count()),
        start.buffer(BufferRole::Staging) == planned_staging(volume),
        volume.is_fixed_point(reference),
    ensures
        ({
            let bytes = bytes_of(start.after_plan(volume).buffer(BufferRole::Readback));
            &&& bytes.len() >= volume.spec_count()
            &&& bytes.subrange(0, volume.spec_count()) == reference
        }),
{
    let total = volume.spec_count();
    law_upload_fills_buffers(volume, start);
    let uploaded = start.run(volume, planned_upload(total));
    assert(narrowed(widened(volume.light@)) =~= volume.light@);
    law_plan_reaches_steady_state(volume, uploaded);
    let computed = uploaded.run(volume, planned_compute(total));
    let light = volume.waves(volume.light@, PASSES as nat);
    volume.law_fixed_point_unique(light, reference);
    assert(4 * uploaded.buffer(BufferRole::Readback).len() == buffer_size(
        total,
        BufferRole::Readback,
    ));
    law_readback_brings_the_result(volume, computed);
    lemma_packed_bytes(light);
}

/// A volume lit by a device is lit like one lit by `propagate_reference`. `stored` is the volume
/// with what the host reads after the device has executed the whole plan, as `store_readback`
/// leaves it; `reference` is the volume in its steady state.
pub proof fn law_device_light_is_reference_light(
    volume: LightVolume,
    start: DeviceState,
    stored: LightVolume,
    reference: LightVolume,
)
    requires
        volume.wf(),
        volume.in_range(volume.light@),
        byte_len(volume.spec_count()) <= u32::MAX,
        start.allocated(volume.spec_count()),
        start.buffer(BufferRole::Staging) == planned_staging(volume),
        stored.same_world(volume),
        stored.light@ == bytes_of(
            start.after_plan(volume).buffer(BufferRole::Readback),
        ).subrange(0, volume.spec_count()),
        reference.same_world(volume),
        reference.is_fixed_point(reference.light@),
    ensures
        bytes_of(start.after_plan(volume).buffer(BufferRole::Readback)).len()
            >= volume.spec_count(),
        stored.light@ == reference.light@,
{
    reference.lemma_same_world(volume);
    lemma_plan_reads_steady_state(volume, start, reference.light@);
}

/// The size of a planned buffer.
pub open spec fn buffer_size(total: int, role: BufferRole) -> int {
    match role {
        BufferRole::Dims => DIMS_BYTES as int,
        BufferRole::Props => byte_len(total),
        BufferRole::LightA => byte_len(total),
        BufferRole::LightB => byte_len(total),
        BufferRole::Packed => packed_len(total),
        BufferRole::Staging => DIMS_BYTES + 2 * byte_len(total),
        BufferRole::Readback => packed_len(total),
    }
}

/// A copy stays inside both of its buffers.
pub open spec fn copy_fits(total: int, command: GpuCommand) -> bool {
    command matches GpuCommand::Copy { from, to, from_offset, size } ==> from_offset + size
        <= buffer_size(total, from) && size <= buffer_size(total, to)
}

/// Everything a plan writes fits: the staging words fill the staging buffer exactly, every copy
/// stays inside its buffers, and the result has a byte for every voxel.
pub proof fn law_plan_fits(volume: LightVolume)
    requires
        volume.wf(),
        byte_len(volume.spec_count()) <= u32::MAX,
    ensures
        forall|i: int|
            0 <= i < 7 ==> (#[trigger] planned_buffers(volume.spec_count())[i]).size == buffer_size(
                volume.spec_count(),
                planned_buffers(volume.spec_count())[i].role,
            ),
        4 * planned_staging(volume).len() == buffer_size(volume.spec_count(), BufferRole::Staging),
        forall|i: int|
            0 <= i < planned_upload(volume.spec_count()).len() ==> copy_fits(
                volume.spec_count(),
                #[trigger] planned_upload(volume.spec_count())[i],
            ),
        forall|i: int|
            0 <= i < planned_readback(volume.spec_count()).len() ==> copy_fits(
                volume.spec_count(),
                #[trigger] planned_readback(volume.spec_count())[i],
            ),
        buffer_size(volume.spec_count(), BufferRole::Readback) >= volume.spec_count(),
{
}

/// Buffers allow what is done with them: what is copied from is a transfer source, what is copied
/// to a transfer target, and what shaders use a storage buffer. Staging and readback are visible to
/// the host, readback cached if possible, and all others are local to the device.
pub proof fn law_buffers_allow_their_use(total: int, i: int)
    requires
        0 <= i < planned_buffers(total).len(),
    ensures
        ({
            let buffer = planned_buffers(total)[i];
            let host = buffer.role == BufferRole::Staging || buffer.role == BufferRole::Readback;
            &&& buffer.usage & 0x1 != 0 <==> buffer.role == BufferRole::Staging || buffer.role
                == BufferRole::Packed
            &&& buffer.usage & 0x2 != 0 <==> buffer.role == BufferRole::Dims || buffer.role
                == BufferRole::Props || buffer.role == BufferRole::LightA || buffer.role
                == BufferRole::Readback
            &&& buffer.usage & 0x20 != 0 <==> !host
            &&& buffer.required == if host {
                0x6u32
            } else {
                0x1u32
            }
            &&& buffer.preferred == if buffer.role == BufferRole::Readback {
                0x8u32
            } else {
                0u32
            }
        }),
{
    assert((0x20u32 | 0x2u32) & 0x1u32 == 0 && (0x20u32 | 0x2u32) & 0x2u32 != 0 && (0x20u32
        | 0x2u32) & 0x20u32 != 0) by (bit_vector);
    assert((0x20u32 | 0x1u32) & 0x1u32 != 0 && (0x20u32 | 0x1u32) & 0x2u32 == 0 && (0x20u32
        | 0x1u32) & 0x20u32 != 0) by (bit_vector);
    assert(0x20u32 & 0x1u32 == 0 && 0x20u32 & 0x2u32 == 0 && 0x20u32 & 0x20u32 != 0)
        by (bit_vector);
    assert(0x1u32 & 0x1u32 != 0 && 0x1u32 & 0x2u32 == 0 && 0x1u32 & 0x20u32 == 0)
        by (bit_vector);
    assert(0x2u32 & 0x1u32 == 0 && 0x2u32 & 0x2u32 != 0 && 0x2u32 & 0x20u32 == 0)
        by (bit_vector);
}

/// The shape of the first `k` waves: three commands each, of which the last waits for the shader.
proof fn lemma_waves_wait(total: int, k: nat)
    ensures
        planned_waves(total, k).len() == 3 * k,
        forall|i: int|
            0 <= i < k ==> {
                &&& #[trigger] planned_waves(total, k)[3 * i] == GpuCommand::BindSet((i % 2) as u32)
                &&& planned_waves(total, k)[3 * i + 1] is Dispatch
                &&& planned_waves(total, k)[3 * i + 2] == GpuCommand::AwaitShader
            },
    decreases k,
{
    if k > 0 {
        lemma_waves_wait(total, (k - 1) as nat);
        let before = planned_waves(total, (k - 1) as nat);
        let all = planned_waves(total, k);
        assert forall|i: int| 0 <= i < k implies {
            &&& #[trigger] all[3 * i] == GpuCommand::BindSet((i % 2) as u32)
            &&& all[3 * i + 1] is Dispatch
            &&& all[3 * i + 2] == GpuCommand::AwaitShader
        } by {
            if i < k - 1 {
                assert(all[3 * i] == before[3 * i]);
                assert(all[3 * i + 1] == before[3 * i + 1]);
                assert(all[3 * i + 2] == before[3 * i + 2]);
            }
        }
    }
}

/// Nothing reads what may not be there yet: shaders start after the transfers, every shader starts
/// after the one before it, and the copy back starts after the shaders.
pub proof fn law_commands_wait_for_each_other(total: int, i: int)
    requires
        0 <= i < planned_compute(total).len(),
    ensures
        planned_compute(total).len() == 50,
        planned_compute(total)[0] == GpuCommand::AwaitTransfer,
        planned_compute(total)[i] is Dispatch && i < 49 ==> planned_compute(total)[i + 1]
            == GpuCommand::AwaitShader,
        planned_readback(total)[0] == GpuCommand::AwaitResult,
        planned_readback(total)[1] is Copy,
{
    lemma_waves_wait(total, PASSES as nat);
    let waves = planned_waves(total, PASSES as nat);
    let all = planned_compute(total);
    if 2 <= i < 47 {
        let k = (i - 2) / 3;
        assert(all[i] == waves[i - 2]);
        assert(waves[3 * k] is BindSet);
        if i - 2 == 3 * k + 1 {
            assert(all[i + 1] == waves[3 * k + 2]);
        }
    }
}

/// Buffers are as large as what they hold: a word per voxel for properties and light, four words of
/// sizes, a byte per voxel for the result, and all that is uploaded in the staging buffer.
pub proof fn law_buffers_are_large_enough(volume: LightVolume, i: int)
    requires
        volume.wf(),
        byte_len(volume.spec_count()) <= u32::MAX,
        0 <= i < planned_buffers(volume.spec_count()).len(),
    ensures
        ({
            let buffer = planned_buffers(volume.spec_count())[i];
            match buffer.role {
                BufferRole::Dims => buffer.size == 4 * planned_dims(volume).len(),
                BufferRole::Props => buffer.size == 4 * volume.props@.len(),
                BufferRole::LightA | BufferRole::LightB => buffer.size == 4 * volume.light@.len(),
                BufferRole::Staging => buffer.size == 4 * planned_staging(volume).len(),
                BufferRole::Packed | BufferRole::Readback => volume.light@.len() <= buffer.size
                    < volume.light@.len() + 4 && buffer.size % 4 == 0,
            }
        }),
{
    law_rounding_up(volume.spec_count(), 4);
}

/// What is staged: the three sizes and the voxel count, a word of properties for each voxel, and a
/// word with the light of each voxel. A volume takes four bytes of a buffer for each voxel.
pub proof fn law_staging(volume: LightVolume, v: int)
    requires
        volume.wf(),
        byte_len(volume.spec_count()) <= u32::MAX,
        volume.is_voxel(v),
    ensures
        ({
            let staging = planned_staging(volume);
            let total = volume.size_x * volume.size_y * volume.size_z;
            &&& byte_len(total) == 4 * total
            &&& staging.len() == 4 + 2 * total
            &&& staging[0] == volume.size_x
            &&& staging[1] == volume.size_y
            &&& staging[2] == volume.size_z
            &&& staging[3] == total
            &&& staging[4 + v] == volume.props@[v]
            &&& staging[4 + total + v] == volume.light@[v]
        }),
{
}

/// Every set has the sizes in its first slot and the properties in its second. The first set leads
/// from the first light buffer to the second one, the second set back, and the third set from the
/// second light buffer to the result.
pub proof fn law_bindings(set: int)
    requires
        0 <= set < 3,
    ensures
        planned_bindings().len() == 12,
        planned_bindings()[4 * set] == (Binding {
            set: set as u32,
            slot: 0,
            buffer: BufferRole::Dims,
        }),
        planned_bindings()[4 * set + 1] == (Binding {
            set: set as u32,
            slot: 1,
            buffer: BufferRole::Props,
        }),
        planned_bindings()[4 * set + 2] == (Binding {
            set: set as u32,
            slot: 2,
            buffer: if set == 0 {
                BufferRole::LightA
            } else {
                BufferRole::LightB
            },
        }),
        planned_bindings()[4 * set + 3] == (Binding {
            set: set as u32,
            slot: 3,
            buffer: if set == 0 {
                BufferRole::LightB
            } else if set == 1 {
                BufferRole::LightA
            } else {
                BufferRole::Packed
            },
        }),
{
}

/// Decoding shader bytes loses none of them: the bytes of the words are the bytes again, up to the
/// last whole word.
pub proof fn law_decoded_words_keep_bytes(bytes: &[u8], words: Vec<u32>)
    requires
        call_ensures(spv_words, (bytes,), words),
    ensures
        bytes_of(words@) == bytes@.take(4 * (bytes@.len() as int / 4)),
{
    assert forall|j: int| 0 <= j < 4 * words@.len() implies #[trigger] bytes_of(words@)[j]
        == bytes@[j] by {
        let i = j / 4;
        let (a, b, c, d) = (
            bytes@[4 * i] as int,
            bytes@[4 * i + 1] as int,
            bytes@[4 * i + 2] as int,
            bytes@[4 * i + 3] as int,
        );
        let word = words@[i] as int;
        assert(word == a + 0x100 * b + 0x1_0000 * c + 0x100_0000 * d);
        assert(word % 0x100 == a);
        assert(word / 0x100 % 0x100 == b);
        assert(word / 0x1_0000 % 0x100 == c);
        assert(word / 0x100_0000 == d);
    }
    assert(bytes_of(words@) =~= bytes@.take(4 * (bytes@.len() as int / 4)));
}

} // verus!
