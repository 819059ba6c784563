//! Buffers: the request, the rules it is held to, and the record of a created one.

use crate::conv::map_buffer_usage;
use crate::device::{Device, DeviceError, MissingDownlevelFlags};
use crate::flags::{BufferUsages, BufferUses, DownlevelFlags, Features, MemoryFlags};
use crate::init_tracker::BufferInitTracker;
use crate::limits::COPY_BUFFER_ALIGNMENT;
use crate::storage::ResourceInfo;
use vstd::prelude::*;

verus! {

/// A request for a buffer.
#[derive(Debug, PartialEq, Eq)]
pub struct BufferDescriptor {
    pub label: Option<String>,
    /// Size in bytes.
    pub size: u64,
    pub usage: BufferUsages,
    /// Whether the buffer starts out mapped, for its creator to fill.
    pub mapped_at_creation: bool,
}

/// Why a request for a buffer was turned down.
#[derive(Clone, Copy, Debug, PartialEq, Eq, Structural)]
pub enum CreateBufferError {
    Device(DeviceError),
    /// A buffer that is mapped at creation and filled by a copy must have a size that is a
    /// multiple of the copy alignment.
    UnalignedSize,
    /// No usage at all, or a bit that is no usage.
    InvalidUsage(BufferUsages),
    /// A mappable buffer with usages that only the mappable-primary-buffers feature allows.
    UsageMismatch(BufferUsages),
    MaxBufferSize { requested: u64, maximum: u64 },
    MissingDownlevelFlags(MissingDownlevelFlags),
}

/// What the hardware layer is asked for when a buffer is created.
#[derive(Clone, Copy, Debug, PartialEq, Eq, Structural)]
pub struct HalBufferDescriptor {
    /// Size in bytes of the allocation.
    pub size: u64,
    pub usage: BufferUses,
    pub memory_flags: MemoryFlags,
}

/// The least multiple of `alignment` that is not below `value`.
pub open spec fn spec_align_to(value: int, alignment: int) -> int {
    if value % alignment == 0 {
        value
    } else {
        value + alignment - value % alignment
    }
}

impl BufferDescriptor {
    /// With a mappable usage, and without the feature that lifts the rule, a buffer
    /// mapped for writing may otherwise only be a copy source, and one mapped for reading
    /// only a copy destination.
    pub open spec fn spec_usage_mismatch(&self) -> bool {
        let write_mismatch = self.usage.contains(BufferUsages::MAP_WRITE) && !(BufferUsages {
            bits: BufferUsages::MAP_WRITE | BufferUsages::COPY_SRC,
        }).contains(self.usage.bits);
        let read_mismatch = self.usage.contains(BufferUsages::MAP_READ) && !(BufferUsages {
            bits: BufferUsages::MAP_READ | BufferUsages::COPY_DST,
        }).contains(self.usage.bits);
        write_mismatch || read_mismatch
    }

    /// Whether what the creator writes at creation reaches the buffer by a copy: the
    /// buffer is mapped at creation and is not mappable for writing.
    pub open spec fn spec_filled_by_copy(&self) -> bool {
        self.mapped_at_creation && !self.usage.contains(BufferUsages::MAP_WRITE)
    }

    /// The hardware usages of the buffer. A buffer that is not mapped at creation is
    /// cleared on first use, and one that is mapped at creation without being mappable
    /// for writing is filled by a copy: both are copy destinations, declared or not.
    pub open spec fn spec_hal_usage(&self) -> BufferUses {
        if self.mapped_at_creation && self.usage.contains(BufferUsages::MAP_WRITE) {
            map_buffer_usage(self.usage)
        } else {
            map_buffer_usage(self.usage).with(BufferUses::COPY_DST)
        }
    }

    /// The size that is allocated, before it is rounded up: the copy alignment for an
    /// empty buffer, one byte more than asked for a vertex buffer, so that an empty range
    /// can be bound at its end, and the size asked for otherwise.
    pub open spec fn spec_actual_size(&self) -> int {
        if self.size == 0 {
            COPY_BUFFER_ALIGNMENT as int
        } else if self.usage.contains(BufferUsages::VERTEX) {
            self.size + 1
        } else {
            self.size as int
        }
    }

    /// The size that is allocated: the actual size, rounded up to the copy alignment.
    pub open spec fn spec_aligned_size(&self) -> int {
        spec_align_to(self.spec_actual_size(), COPY_BUFFER_ALIGNMENT as int)
    }
}

impl Device {
    /// The rules a request for a buffer is held to, in the order in which they are tried,
    /// and what is asked of the hardware when it passes them all.
    pub open spec fn spec_create_buffer(&self, desc: &BufferDescriptor, transient: bool) -> Result<
        HalBufferDescriptor,
        CreateBufferError,
    > {
        if desc.size > self.limits.max_buffer_size {
            Err(
                CreateBufferError::MaxBufferSize {
                    requested: desc.size,
                    maximum: self.limits.max_buffer_size,
                },
            )
        } else if desc.usage.contains(BufferUsages::INDEX) && desc.usage.intersects(
            BufferUsages::VERTEX | BufferUsages::UNIFORM | BufferUsages::INDIRECT
                | BufferUsages::STORAGE,
        ) && !self.downlevel.flags.contains(DownlevelFlags::UNRESTRICTED_INDEX_BUFFER) {
            Err(
                CreateBufferError::MissingDownlevelFlags(
                    MissingDownlevelFlags(
                        DownlevelFlags { bits: DownlevelFlags::UNRESTRICTED_INDEX_BUFFER },
                    ),
                ),
            )
        } else if desc.usage.is_empty() || desc.usage.contains_invalid_bits() {
            Err(CreateBufferError::InvalidUsage(desc.usage))
        } else if !self.features.contains(Features::MAPPABLE_PRIMARY_BUFFERS)
            && desc.spec_usage_mismatch() {
            Err(CreateBufferError::UsageMismatch(desc.usage))
        } else if desc.spec_filled_by_copy() && desc.size % COPY_BUFFER_ALIGNMENT != 0 {
            Err(CreateBufferError::UnalignedSize)
        } else if desc.spec_aligned_size() > u64::MAX {
            Err(
                CreateBufferError::MaxBufferSize {
                    requested: desc.size,
                    maximum: self.limits.max_buffer_size,
                },
            )
        } else {
            Ok(
                HalBufferDescriptor {
                    size: desc.spec_aligned_size() as u64,
                    usage: desc.spec_hal_usage(),
                    memory_flags: MemoryFlags { bits: 0 }.with_if(MemoryFlags::TRANSIENT, transient),
                },
            )
        }
    }

    /// Checks a request for a buffer and says what to ask of the hardware.
    ///
    /// The request is turned down, with the first reason that applies, when
    /// - the size is over the device's maximum buffer size;
    /// - it is an index buffer and also a vertex, uniform, indirect or storage buffer,
    ///   and the platform cannot mix them;
    /// - it has no usage, or a bit that is no usage;
    /// - it is mappable with other usages than the matching copy, and the device lacks
    ///   the feature that allows it;
    /// - it is mapped at creation without being mappable for writing, and its size is no
    ///   multiple of the copy alignment;
    /// - its size, padded, does not fit in 64 bits.
    ///
    /// Nothing has been asked of the hardware when this returns.
    pub fn create_buffer(&self, desc: &BufferDescriptor, transient: bool) -> (r: Result<
        HalBufferDescriptor,
        CreateBufferError,
    >)
        ensures
            r == self.spec_create_buffer(desc, transient),
    {
        if desc.size > self.limits.max_buffer_size {
            return Err(
                CreateBufferError::MaxBufferSize {
                    requested: desc.size,
                    maximum: self.limits.max_buffer_size,
                },
            );
        }
        if desc.usage.contains(BufferUsages::INDEX) && desc.usage.intersects(
            BufferUsages::VERTEX | BufferUsages::UNIFORM | BufferUsages::INDIRECT
                | BufferUsages::STORAGE,
        ) {
            match self.require_downlevel_flags(DownlevelFlags::UNRESTRICTED_INDEX_BUFFER) {
                Ok(()) => {},
                Err(missing) => {
                    return Err(CreateBufferError::MissingDownlevelFlags(missing));
                },
            }
        }
        let mut usage = map_buffer_usage(desc.usage);

        if desc.usage.is_empty() || desc.usage.contains_invalid_bits() {
            return Err(CreateBufferError::InvalidUsage(desc.usage));
        }
        if !self.features.contains(Features::MAPPABLE_PRIMARY_BUFFERS) {
            let write_mismatch = desc.usage.contains(BufferUsages::MAP_WRITE)
                && !BufferUsages::from_bits(
                BufferUsages::MAP_WRITE | BufferUsages::COPY_SRC,
            ).contains(desc.usage.bits);
            let read_mismatch = desc.usage.contains(BufferUsages::MAP_READ)
                && !BufferUsages::from_bits(
                BufferUsages::MAP_READ | BufferUsages::COPY_DST,
            ).contains(desc.usage.bits);
            if write_mismatch || read_mismatch {
                return Err(CreateBufferError::UsageMismatch(desc.usage));
            }
        }
        if desc.mapped_at_creation {
            if !desc.usage.contains(BufferUsages::MAP_WRITE) {
                if desc.size % COPY_BUFFER_ALIGNMENT != 0 {
                    return Err(CreateBufferError::UnalignedSize);
                }
                usage = usage.with(BufferUses::COPY_DST);
            }
        } else {
            usage = usage.with(BufferUses::COPY_DST);
        }
        let too_large = CreateBufferError::MaxBufferSize {
            requested: desc.size,
            maximum: self.limits.max_buffer_size,
        };
        let actual_size = if desc.size == 0 {
            COPY_BUFFER_ALIGNMENT
        } else if desc.usage.contains(BufferUsages::VERTEX) {
            match desc.size.checked_add(1) {
                Some(size) => size,
                None => {
                    return Err(too_large);
                },
            }
        } else {
            desc.size
        };
        let clear_remainder = actual_size % COPY_BUFFER_ALIGNMENT;
        let aligned_size = if clear_remainder != 0 {
            match actual_size.checked_add(COPY_BUFFER_ALIGNMENT - clear_remainder) {
                Some(size) => size,
                None => {
                    return Err(too_large);
                },
            }
        } else {
            actual_size
        };
        let memory_flags = MemoryFlags::empty().with_if(MemoryFlags::TRANSIENT, transient);
        Ok(HalBufferDescriptor { size: aligned_size, usage, memory_flags })
    }
}

/// An empty buffer is allocated at exactly the copy alignment, whatever its usages.
pub proof fn lemma_empty_buffer_allocation(device: Device, desc: BufferDescriptor, transient: bool)
    requires
        desc.size == 0,
    ensures
        desc.spec_actual_size() == COPY_BUFFER_ALIGNMENT,
        desc.spec_aligned_size() == COPY_BUFFER_ALIGNMENT,
        device.spec_create_buffer(&desc, transient) matches Ok(hal) ==> hal.size
            == COPY_BUFFER_ALIGNMENT,
{
}

/// A vertex buffer that is not empty is allocated, before rounding, one byte more than was
/// asked for.
pub proof fn lemma_vertex_buffer_allocation(device: Device, desc: BufferDescriptor, transient: bool)
    requires
        desc.usage.contains(BufferUsages::VERTEX),
        desc.size != 0,
    ensures
        desc.spec_actual_size() == desc.size + 1,
        device.spec_create_buffer(&desc, transient) matches Ok(hal) ==> hal.size == spec_align_to(
            desc.size + 1,
            COPY_BUFFER_ALIGNMENT as int,
        ),
{
}

/// The allocation of a created buffer is the least multiple of the copy alignment that
/// holds the actual size; in particular it holds every byte that was asked for.
pub proof fn lemma_buffer_allocation_is_aligned(
    device: Device,
    desc: BufferDescriptor,
    transient: bool,
)
    ensures
        device.spec_create_buffer(&desc, transient) matches Ok(hal) ==> {
            &&& hal.size % COPY_BUFFER_ALIGNMENT == 0
            &&& desc.spec_actual_size() <= hal.size < desc.spec_actual_size()
                + COPY_BUFFER_ALIGNMENT
            &&& desc.size <= hal.size
        },
{
}

/// A buffer that is not mapped at creation can always be written by a copy, so that it
/// can be cleared on first use; so can one that is mapped at creation and is not
/// mappable for writing.
pub proof fn lemma_unmapped_buffer_is_copy_destination(
    device: Device,
    desc: BufferDescriptor,
    transient: bool,
)
    requires
        !desc.mapped_at_creation || !desc.usage.contains(BufferUsages::MAP_WRITE),
    ensures
        device.spec_create_buffer(&desc, transient) matches Ok(hal) ==> hal.usage.contains(
            BufferUses::COPY_DST,
        ),
{
    let mapped = map_buffer_usage(desc.usage).bits;
    assert((mapped | 0x0008u16) & 0x0008u16 == 0x0008u16) by (bit_vector);
}

/// Whether a buffer is mapped for its owner to read or write.
#[derive(Clone, Copy, Debug, PartialEq, Eq, Structural)]
pub enum BufferMapState {
    /// Not mapped, and not asked to be.
    Idle,
    /// Asked to be mapped, once the hardware is done with it.
    Pending,
    /// Mapped.
    Active,
}

/// A buffer that was created. `R` is the handle of the hardware buffer.
#[derive(Debug, PartialEq, Eq)]
pub struct Buffer<R> {
    /// The hardware buffer; gone once the buffer has been destroyed.
    pub raw: Option<R>,
    pub usage: BufferUsages,
    pub size: u64,
    pub initialization_status: BufferInitTracker,
    pub map_state: BufferMapState,
    pub info: ResourceInfo,
}

impl Device {
    /// The record of the buffer that the hardware made for `desc`, or the failure of the
    /// hardware to make one. No byte of a new buffer has been written, and it is not
    /// mapped.
    pub fn create_buffer_from_hal<R>(
        &self,
        desc: &BufferDescriptor,
        label: String,
        raw: Result<R, DeviceError>,
    ) -> (r: Result<Buffer<R>, CreateBufferError>)
        ensures
            match raw {
                Err(e) => r == Err::<Buffer<R>, CreateBufferError>(CreateBufferError::Device(e)),
                Ok(handle) => r matches Ok(buffer) && {
                    &&& buffer.raw == Some(handle)
                    &&& buffer.usage == desc.usage
                    &&& buffer.size == desc.size
                    &&& buffer.initialization_status.uninitialized_ranges@ == seq![0u64..desc.size]
                    &&& buffer.map_state == BufferMapState::Idle
                    &&& buffer.info.label == label
                    &&& buffer.info.id is None
                },
            },
    {
        match raw {
            Err(e) => Err(CreateBufferError::Device(e)),
            Ok(handle) => Ok(
                Buffer {
                    raw: Some(handle),
                    usage: desc.usage,
                    size: desc.size,
                    initialization_status: BufferInitTracker::new(desc.size),
                    map_state: BufferMapState::Idle,
                    info: ResourceInfo::new(label),
                },
            ),
        }
    }
}

} // verus!
