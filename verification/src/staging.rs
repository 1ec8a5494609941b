//! Buffers for short-lived data, and transfers to the device.

use crate::command;
use crate::command::{BufferRegion, Command, CommandEncoder};
use crate::device::extension;
use crate::device::DeviceBuilder;
use crate::memory::MemoryTypeMap;
use crate::physical_device;
use crate::physical_device::MissingFeatureError;
use crate::version;
use crate::version::Version;
use crate::vk;
use vstd::prelude::*;
use vstd::slice::slice_to_vec;
use vstd::string::*;

verus! {

// ---------------------------------------------------------------------------
// Ring buffers
// ---------------------------------------------------------------------------

/// Sizes of the chunks in which the ring buffers grow.
#[derive(Debug, Clone, Copy, PartialEq, Eq, Structural)]
pub struct StagingBeltPlugin {
    pub device_local_chunk_size: u32,
    pub uniform_chunk_size: u32,
    pub host_visible_chunk_size: u32,
}

impl Default for StagingBeltPlugin {
    /// 64 MiB for data on the device, 512 KiB for uniforms, 64 MiB for staging.
    fn default() -> (r: Self)
        ensures
            r == (StagingBeltPlugin {
                device_local_chunk_size: 0x400_0000,
                uniform_chunk_size: 0x8_0000,
                host_visible_chunk_size: 0x400_0000,
            }),
    {
        StagingBeltPlugin {
            device_local_chunk_size: 64 * 1024 * 1024,
            uniform_chunk_size: 512 * 1024,
            host_visible_chunk_size: 64 * 1024 * 1024,
        }
    }
}

/// Name of the extension behind buffer addresses.
pub const BUFFER_DEVICE_ADDRESS: &'static str = "VK_KHR_buffer_device_address";

/// Structure type of the features of buffer addresses.
pub const BUFFER_DEVICE_ADDRESS_FEATURES: i32 = 1000257000;

/// The ring buffers hand out the addresses of buffers.
pub open spec fn addresses_provided(builder: DeviceBuilder) -> bool {
    builder.api_version.0 >= version::packed(0, 1, 2, 0)
        || builder.enabled_extensions@.contains_key(BUFFER_DEVICE_ADDRESS.spec_bytes())
}

/// Buffers have addresses from Vulkan 1.2 on, and before where the extension is
/// enabled.
pub proof fn law_later_versions_provide_addresses(builder: DeviceBuilder)
    ensures
        builder.api_version.0 >= 0x40_2000 ==> addresses_provided(builder),
        builder.enabled_extensions@.contains_key(BUFFER_DEVICE_ADDRESS.spec_bytes())
            ==> addresses_provided(builder),
        builder.api_version.0 < 0x40_2000 && !builder.enabled_extensions@.contains_key(
            BUFFER_DEVICE_ADDRESS.spec_bytes(),
        ) ==> !addresses_provided(builder),
{
    assert((0u32 << 29) | (1u32 << 22) | (2u32 << 12) | 0u32 == 0x40_2000) by (bit_vector);
}

impl StagingBeltPlugin {
    /// Enables what the ring buffers need of a device: that buffers have
    /// addresses, the first of the three flags that the device reports.
    pub fn enable_features(builder: &mut DeviceBuilder, reported: Vec<u32>) -> (r: Result<
        (),
        MissingFeatureError,
    >)
        requires
            old(builder).wf(),
            reported@.len() == 3,
            old(builder).features.fits(BUFFER_DEVICE_ADDRESS_FEATURES, 3),
        ensures
            final(builder).wf(),
            r is Ok <==> addresses_provided(*old(builder)) && physical_device::flags_or(
                old(builder).features.available_features@,
                BUFFER_DEVICE_ADDRESS_FEATURES,
                reported@,
            )[0] != vk::FALSE,
            r matches Err(e) ==> (e is Extension <==> !addresses_provided(*old(builder))),
            r is Ok ==> physical_device::flags_or(
                final(builder).features.enabled_features@,
                BUFFER_DEVICE_ADDRESS_FEATURES,
                Seq::empty(),
            ) == physical_device::flags_or(
                old(builder).features.enabled_features@,
                BUFFER_DEVICE_ADDRESS_FEATURES,
                physical_device::no_flags(3),
            ).update(0, vk::TRUE),
            r is Err ==> final(builder).features.enabled_features@
                == old(builder).features.enabled_features@,
            final(builder).api_version == old(builder).api_version,
            final(builder).enabled_extensions == old(builder).enabled_extensions,
            final(builder).available_extensions == old(builder).available_extensions,
            final(builder).queue_info == old(builder).queue_info,
    {
        let addresses = extension(BUFFER_DEVICE_ADDRESS, Some(Version::new(0, 1, 2, 0)));
        builder.enable_feature(&addresses, BUFFER_DEVICE_ADDRESS_FEATURES, 0, reported)
    }
}

/// How a ring buffer is created.
#[derive(Debug, Clone, Copy, PartialEq, Eq)]
pub struct RingBufferConfig {
    pub chunk_size: u64,
    pub memory_type_index: u32,
    pub usage: u32,
    pub allocate_flags: u32,
    pub name: &'static str,
}

/// Buffers on the device.
#[derive(Debug, Clone, Copy, PartialEq, Eq)]
pub struct DeviceLocalRingBuffer(pub RingBufferConfig);

/// Uniform buffers that the host can write.
#[derive(Debug, Clone, Copy, PartialEq, Eq)]
pub struct UniformRingBuffer(pub RingBufferConfig);

/// Buffers from which data is copied to the device.
#[derive(Debug, Clone, Copy, PartialEq, Eq)]
pub struct HostVisibleRingBuffer(pub RingBufferConfig);

/// What buffers on the device are used for.
pub open spec fn device_local_usage(acceleration_structure: bool, ray_tracing: bool) -> u32 {
    let base = vk::BUFFER_USAGE_STORAGE_BUFFER | vk::BUFFER_USAGE_TRANSFER_DST
        | vk::BUFFER_USAGE_INDEX_BUFFER | vk::BUFFER_USAGE_VERTEX_BUFFER
        | vk::BUFFER_USAGE_SHADER_DEVICE_ADDRESS | vk::BUFFER_USAGE_UNIFORM_BUFFER;
    let structures = if acceleration_structure {
        base | vk::BUFFER_USAGE_ACCELERATION_STRUCTURE_BUILD_INPUT_READ_ONLY_KHR
            | vk::BUFFER_USAGE_ACCELERATION_STRUCTURE_STORAGE_KHR
    } else {
        base
    };
    if ray_tracing {
        structures | vk::BUFFER_USAGE_SHADER_BINDING_TABLE_KHR
    } else {
        structures
    }
}

/// Buffers on the device can be copied to, and read as storage, as uniforms, as
/// vertices and as indices, and by their addresses. They hold what acceleration
/// structures are built from and on, and shader binding tables, exactly where the
/// device has the extensions for them.
pub proof fn law_device_buffers_serve_every_use(acceleration_structure: bool, ray_tracing: bool)
    ensures
        ({
            let usage = device_local_usage(acceleration_structure, ray_tracing);
            &&& usage & vk::BUFFER_USAGE_STORAGE_BUFFER != 0
            &&& usage & vk::BUFFER_USAGE_TRANSFER_DST != 0
            &&& usage & vk::BUFFER_USAGE_INDEX_BUFFER != 0
            &&& usage & vk::BUFFER_USAGE_VERTEX_BUFFER != 0
            &&& usage & vk::BUFFER_USAGE_SHADER_DEVICE_ADDRESS != 0
            &&& usage & vk::BUFFER_USAGE_UNIFORM_BUFFER != 0
            &&& usage & vk::BUFFER_USAGE_ACCELERATION_STRUCTURE_BUILD_INPUT_READ_ONLY_KHR != 0
                <==> acceleration_structure
            &&& usage & vk::BUFFER_USAGE_ACCELERATION_STRUCTURE_STORAGE_KHR != 0
                <==> acceleration_structure
            &&& usage & vk::BUFFER_USAGE_SHADER_BINDING_TABLE_KHR != 0 <==> ray_tracing
        }),
{
    let usage = device_local_usage(acceleration_structure, ray_tracing);
    let a = if acceleration_structure {
        0x80000u32 | 0x100000u32
    } else {
        0u32
    };
    let t = if ray_tracing {
        0x400u32
    } else {
        0u32
    };
    let base = (0x20u32 | 0x2u32 | 0x40u32 | 0x80u32 | 0x20000u32 | 0x10u32);
    assert(base | 0u32 == base && (base | 0x80000u32) | 0x100000u32 == base | (0x80000u32 | 0x100000u32)) by (bit_vector);
    assert((base | a) | 0u32 == base | a) by (bit_vector);
    assert(usage == (base | a) | t);
    assert(usage & 0x20u32 != 0 && usage & 0x2u32 != 0 && usage & 0x40u32 != 0 && usage & 0x80u32
        != 0 && usage & 0x20000u32 != 0 && usage & 0x10u32 != 0 && (usage & 0x80000u32 != 0 <==> a != 0)
        && (usage & 0x100000u32 != 0 <==> a != 0) && (usage & 0x400u32 != 0 <==> t != 0)) by (bit_vector)
        requires
            usage == (base | a) | t,
            base == (0x20u32 | 0x2u32 | 0x40u32 | 0x80u32 | 0x20000u32 | 0x10u32),
            a == 0 || a == 0x80000u32 | 0x100000u32,
            t == 0 || t == 0x400u32,
    ;
    assert(0x80000u32 | 0x100000u32 != 0u32) by (bit_vector);
}

impl DeviceLocalRingBuffer {
    /// Buffers in memory of the device. They hold acceleration structures and
    /// shader binding tables on devices with the extensions for them.
    pub fn new(
        memory_types: &MemoryTypeMap,
        acceleration_structure: bool,
        ray_tracing_pipeline: bool,
        chunk_size: u32,
    ) -> (r: Self)
        ensures
            r.0.chunk_size == chunk_size,
            r.0.memory_type_index == memory_types.private,
            r.0.usage == device_local_usage(acceleration_structure, ray_tracing_pipeline),
            r.0.allocate_flags == vk::MEMORY_ALLOCATE_DEVICE_ADDRESS,
            r.0.name@ == "DeviceLocalRingBuffer"@,
    {
        let mut usage: u32 = vk::BUFFER_USAGE_STORAGE_BUFFER | vk::BUFFER_USAGE_TRANSFER_DST
            | vk::BUFFER_USAGE_INDEX_BUFFER | vk::BUFFER_USAGE_VERTEX_BUFFER
            | vk::BUFFER_USAGE_SHADER_DEVICE_ADDRESS | vk::BUFFER_USAGE_UNIFORM_BUFFER;
        if acceleration_structure {
            usage = usage | vk::BUFFER_USAGE_ACCELERATION_STRUCTURE_BUILD_INPUT_READ_ONLY_KHR;
            usage = usage | vk::BUFFER_USAGE_ACCELERATION_STRUCTURE_STORAGE_KHR;
        }
        if ray_tracing_pipeline {
            usage = usage | vk::BUFFER_USAGE_SHADER_BINDING_TABLE_KHR;
        }
        DeviceLocalRingBuffer(
            RingBufferConfig {
                chunk_size: chunk_size as u64,
                memory_type_index: memory_types.private,
                usage,
                allocate_flags: vk::MEMORY_ALLOCATE_DEVICE_ADDRESS,
                name: "DeviceLocalRingBuffer",
            },
        )
    }
}

impl UniformRingBuffer {
    /// Buffers in memory of the device that the host can write; on devices
    /// without such memory an error code.
    pub fn new(memory_types: &MemoryTypeMap, chunk_size: u32) -> (r: Result<Self, i32>)
        ensures
            r matches Err(code) ==> memory_types.uniform == u32::MAX && code
                == vk::RESULT_ERROR_OUT_OF_DEVICE_MEMORY,
            r matches Ok(buffer) ==> {
                &&& memory_types.uniform != u32::MAX
                &&& buffer.0.chunk_size == chunk_size
                &&& buffer.0.memory_type_index == memory_types.uniform
                &&& buffer.0.usage == vk::BUFFER_USAGE_UNIFORM_BUFFER
                &&& buffer.0.allocate_flags == 0
                &&& buffer.0.name@ == "UniformRingBuffer"@
            },
    {
        if memory_types.uniform == u32::MAX {
            return Err(vk::RESULT_ERROR_OUT_OF_DEVICE_MEMORY);
        }
        Ok(
            UniformRingBuffer(
                RingBufferConfig {
                    chunk_size: chunk_size as u64,
                    memory_type_index: memory_types.uniform,
                    usage: vk::BUFFER_USAGE_UNIFORM_BUFFER,
                    allocate_flags: 0,
                    name: "UniformRingBuffer",
                },
            ),
        )
    }

    /// The size and the alignment with which the buffer for some data is
    /// allocated. The alignment is the least that the device allows for offsets
    /// of uniform buffers.
    pub fn uniform_allocation(data: &[u8], min_uniform_buffer_offset_alignment: u64) -> (r: (
        u64,
        u64,
    ))
        ensures
            r.0 == data@.len(),
            r.1 == min_uniform_buffer_offset_alignment,
    {
        (data.len() as u64, min_uniform_buffer_offset_alignment)
    }

    /// Fills the buffer that was allocated for some data. Where the host can
    /// write the buffer, `memory` is its contents, and the data goes there.
    /// Otherwise it is recorded among the commands, from which the device copies
    /// it.
    pub fn create_uniform(
        encoder: &mut CommandEncoder,
        buffer: BufferRegion,
        memory: Option<&mut Vec<u8>>,
        data: &[u8],
    )
        requires
            memory matches Some(m) ==> m@.len() == data@.len(),
        ensures
            memory matches Some(m) ==> final(m)@ == data@ && final(encoder).commands@ == old(
                encoder,
            ).commands@,
            memory is None ==> {
                &&& command::recorded(old(encoder).commands@, final(encoder).commands@)
                &&& final(encoder).commands@.last() matches Command::UpdateBuffer {
                    buffer: b,
                    data: d,
                } && b == buffer && d@ == data@
            },
            final(encoder).state == old(encoder).state,
            final(encoder).features == old(encoder).features,
    {
        match memory {
            Some(m) => {
                let mut i: usize = 0;
                let n: usize = data.len();
                while i < n
                    invariant
                        i <= n,
                        n == data@.len(),
                        m@.len() == n,
                        forall|j: int| 0 <= j < i ==> m@[j] == data@[j],
                    decreases n - i,
                {
                    m.set(i, data[i]);
                    i += 1;
                }
                assert(m@ =~= data@);
            },
            None => {
                encoder.commands.push(Command::UpdateBuffer { buffer, data: slice_to_vec(data) });
                assert(encoder.commands@.drop_last() =~= old(encoder).commands@);
            },
        }
    }
}

impl HostVisibleRingBuffer {
    /// Buffers in memory of the host.
    pub fn new(memory_types: &MemoryTypeMap, chunk_size: u32) -> (r: Self)
        ensures
            r.0.chunk_size == chunk_size,
            r.0.memory_type_index == memory_types.host,
            r.0.usage == vk::BUFFER_USAGE_TRANSFER_SRC,
            r.0.allocate_flags == vk::MEMORY_ALLOCATE_DEVICE_ADDRESS,
            r.0.name@ == "HostVisibleRingBuffer"@,
    {
        HostVisibleRingBuffer(
            RingBufferConfig {
                chunk_size: chunk_size as u64,
                memory_type_index: memory_types.host,
                usage: vk::BUFFER_USAGE_TRANSFER_SRC,
                allocate_flags: vk::MEMORY_ALLOCATE_DEVICE_ADDRESS,
                name: "HostVisibleRingBuffer",
            },
        )
    }
}

/// How the first contents of a buffer get there.
#[derive(Debug, Clone, Copy, PartialEq, Eq)]
pub enum Initialization {
    /// There are none.
    Nothing,
    /// The host writes them into the buffer.
    Direct,
    /// The host writes them into a staging buffer of this size and alignment,
    /// from which they are copied. A buffer that others use too is locked for
    /// the given stage.
    Staged { size: u64, align: u64, lock_stage: Option<u64> },
}

/// Fills buffers on the device. `host_visible` says that the host can write
/// them itself.
#[derive(Debug, Clone, Copy, PartialEq, Eq, Structural)]
pub struct BufferInitializer {
    pub host_visible: bool,
}

impl BufferInitializer {
    /// How a buffer that others use too is filled.
    pub fn create_preinitialized_buffer(&self, size: u64, align: u64) -> (r: Initialization)
        ensures
            r == (if size == 0 {
                Initialization::Nothing
            } else if self.host_visible {
                Initialization::Direct
            } else {
                Initialization::Staged {
                    size,
                    align,
                    lock_stage: Some(vk::PIPELINE_STAGE_2_COPY),
                }
            }),
    {
        if size == 0 {
            Initialization::Nothing
        } else if self.host_visible {
            Initialization::Direct
        } else {
            Initialization::Staged { size, align, lock_stage: Some(vk::PIPELINE_STAGE_2_COPY) }
        }
    }

    /// How a buffer that only the recorded commands use is filled.
    pub fn create_preinitialized_buffer_retained(&self, size: u64, align: u64) -> (r:
        Initialization)
        ensures
            r == (if size == 0 {
                Initialization::Nothing
            } else if self.host_visible {
                Initialization::Direct
            } else {
                Initialization::Staged { size, align, lock_stage: None }
            }),
    {
        if size == 0 {
            Initialization::Nothing
        } else if self.host_visible {
            Initialization::Direct
        } else {
            Initialization::Staged { size, align, lock_stage: None }
        }
    }
}

// ---------------------------------------------------------------------------
// Transfers
// ---------------------------------------------------------------------------

/// A batch of transfers: the commands that are being recorded, and those that
/// were submitted last and may still be executed.
pub struct AsyncTransferGuard<E, T> {
    recording: E,
    pending_task: Option<T>,
}

/// What happens first when a batch is flushed.
pub enum Flush<T> {
    /// The commands submitted last are still being executed: nothing.
    Wait,
    /// The commands submitted last are done, and freed; then the recorded ones
    /// are submitted.
    FreeThenSubmit(T),
    /// The recorded commands are submitted.
    Submit,
}

impl<E, T> AsyncTransferGuard<E, T> {
    pub closed spec fn encoder(&self) -> E {
        self.recording
    }

    pub closed spec fn pending(&self) -> Option<T> {
        self.pending_task
    }

    /// Starts a batch.
    pub fn new(encoder: E) -> (r: Self)
        ensures
            r.encoder() == encoder,
            r.pending() is None,
    {
        AsyncTransferGuard { recording: encoder, pending_task: None }
    }

    /// Whether commands were submitted that may still be executed.
    pub fn has_pending(&self) -> (r: bool)
        ensures
            r == (self.pending() is Some),
    {
        self.pending_task.is_some()
    }

    /// Starts to flush. `finished` says that the commands submitted last are
    /// done.
    pub fn flush(&mut self, finished: bool) -> (r: Flush<T>)
        ensures
            final(self).encoder() == old(self).encoder(),
            match old(self).pending() {
                None => r is Submit && final(self).pending() is None,
                Some(task) => if finished {
                    r == Flush::FreeThenSubmit(task) && final(self).pending() is None
                } else {
                    r is Wait && final(self).pending() == Some(task)
                },
            },
    {
        if self.pending_task.is_some() {
            if finished {
                Flush::FreeThenSubmit(self.pending_task.take().unwrap())
            } else {
                Flush::Wait
            }
        } else {
            Flush::Submit
        }
    }

    /// Goes on with a new encoder, and hands out the one to be submitted.
    pub fn replace_encoder(&mut self, encoder: E) -> (r: E)
        requires
            old(self).pending() is None,
        ensures
            r == old(self).encoder(),
            final(self).encoder() == encoder,
            final(self).pending() is None,
    {
        let mut other = encoder;
        std::mem::swap(&mut self.recording, &mut other);
        other
    }

    /// Notes what was submitted.
    pub fn note_submitted(&mut self, task: T)
        requires
            old(self).pending() is None,
        ensures
            final(self).encoder() == old(self).encoder(),
            final(self).pending() == Some(task),
    {
        self.pending_task = Some(task);
    }

    /// Ends the batch: what was submitted last is waited for and freed, then
    /// what was recorded since is submitted.
    pub fn submit(self) -> (r: (Option<T>, E))
        ensures
            r == (self.pending(), self.encoder()),
    {
        (self.pending_task, self.recording)
    }
}

} // verus!
