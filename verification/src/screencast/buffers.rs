//! The buffers of a stream, and what follows from a frame.

use crate::screencast::thread::{
    after_frame, convert_transform, device_of, dmabuf_chunk, shm_chunk, shm_format, shm_of_fourcc,
    transform_number, Chunk, DamageRect, StreamData,
};
use crate::screenshot::geometry::Transform;
use crate::wayland::dmabuf::Plane;
use crate::wayland::shm::{create_shm_buffer, ShmBuffer};
use vstd::prelude::*;

verus! {

/// The bit that says that the other side takes memory of graphics devices.
pub const DATA_DMABUF_BIT: u32 = 8;

/// What kind of memory holds a plane.
#[derive(Debug, Clone, Copy, PartialEq, Eq, Structural)]
pub enum DataKind {
    MemFd,
    DmaBuf,
}

/// A plane as the other side is told of it.
#[derive(Debug, Clone, Copy, PartialEq, Eq, Structural)]
pub struct BufferData {
    pub kind: DataKind,
    /// Whether it can be read and mapped by everyone.
    pub mappable: bool,
    pub max_size: u32,
    pub chunk: Chunk,
}

/// How a buffer is made.
#[derive(Debug, Clone, Copy, PartialEq, Eq, Structural)]
pub enum BufferPlan {
    /// In the memory of a device.
    Dmabuf { device: u64, format: u32, modifier: u64, width: u32, height: u32 },
    /// In a file in memory.
    Shm { buffer: ShmBuffer, data: BufferData },
}

/// A buffer of four bytes for each pixel can be told of.
pub open spec fn size_fits(size: (u32, u32)) -> bool {
    &&& size.0 * 4 <= i32::MAX
    &&& size.1 <= i32::MAX
    &&& size.0 * size.1 * 4 <= i32::MAX
}

impl StreamData {
    /// How a buffer is made, given the kinds of memory that the other side takes and the device that
    /// is used where the formats name none: in the memory of the device where that is taken.
    pub fn add_buffer(&self, data_kinds: u32, main_device: u64) -> (r: BufferPlan)
        requires
            size_fits(self.formats.buffer_size),
            data_kinds & DATA_DMABUF_BIT == 0 ==> self.has_stream_format(),
            data_kinds & DATA_DMABUF_BIT != 0 ==> self.modifier is Some,
        ensures
            ({
                let (width, height) = self.formats.buffer_size;
                if data_kinds & DATA_DMABUF_BIT != 0 {
                    r == (BufferPlan::Dmabuf {
                        device: device_of(self.formats, main_device),
                        format: self.format,
                        modifier: self.modifier->0,
                        width,
                        height,
                    })
                } else {
                    &&& shm_of_fourcc(self.format) matches Some(format)
                    &&& r == (BufferPlan::Shm {
                        buffer: ShmBuffer {
                            pool_size: (width * height * 4) as i32,
                            offset: 0,
                            width: width as i32,
                            height: height as i32,
                            stride: (width * 4) as i32,
                            format,
                        },
                        data: BufferData {
                            kind: DataKind::MemFd,
                            mappable: true,
                            max_size: (width * height * 4) as u32,
                            chunk: Chunk {
                                size: (width * height * 4) as u32,
                                offset: 0,
                                stride: (4 * width) as i32,
                            },
                        },
                    })
                }
            }),
    {
        let (width, height) = self.formats.buffer_size;
        if data_kinds & DATA_DMABUF_BIT != 0 {
            if let Some(modifier) = self.modifier {
                let device: u64 = self.device(main_device);
                return BufferPlan::Dmabuf { device, format: self.format, modifier, width, height };
            }
        }
        proof {
            assert(width * 4 * height == width * height * 4) by (nonlinear_arith);
            assert(0 <= width * height) by (nonlinear_arith);
        }
        let format = shm_format(self.format).unwrap();
        let buffer = create_shm_buffer(width, height, width * 4, format);
        let chunk = shm_chunk(width, height);
        BufferPlan::Shm {
            buffer,
            data: BufferData {
                kind: DataKind::MemFd,
                mappable: true,
                max_size: width * height * 4,
                chunk,
            },
        }
    }
}

/// A plane of a device, as the other side is told of it.
pub open spec fn plane_data(plane: Plane, height: u32) -> BufferData {
    BufferData {
        kind: DataKind::DmaBuf,
        mappable: false,
        max_size: 0,
        chunk: Chunk {
            size: (height * plane.stride) as u32,
            offset: plane.offset,
            stride: plane.stride as i32,
        },
    }
}

/// The planes of a buffer of a device, as the other side is told of them.
pub fn dmabuf_datas(planes: &Vec<Plane>, height: u32) -> (r: Vec<BufferData>)
    requires
        forall|i: int|
            0 <= i < planes@.len() ==> height * (#[trigger] planes@[i]).stride <= u32::MAX,
    ensures
        r@ == planes@.map_values(|plane: Plane| plane_data(plane, height)),
{
    let ghost all = planes@.map_values(|plane: Plane| plane_data(plane, height));
    let mut r: Vec<BufferData> = Vec::new();
    let mut i: usize = 0;
    while i < planes.len()
        invariant
            i <= planes@.len(),
            forall|j: int|
                0 <= j < planes@.len() ==> height * (#[trigger] planes@[j]).stride <= u32::MAX,
            all == planes@.map_values(|plane: Plane| plane_data(plane, height)),
            r@ == all.take(i as int),
        decreases planes@.len() - i,
    {
        let plane = planes[i];
        let chunk = dmabuf_chunk(height, plane.offset, plane.stride);
        r.push(BufferData { kind: DataKind::DmaBuf, mappable: false, max_size: 0, chunk });
        proof {
            assert(all.take(i + 1) =~= all.take(i as int).push(all[i as int]));
        }
        i = i + 1;
    }
    proof {
        assert(all.take(all.len() as int) =~= all);
    }
    r
}

/// What came of a capture into a buffer.
#[derive(Debug)]
pub enum CaptureReply {
    /// A frame, with what changed and how it is turned.
    Frame { damage: Vec<DamageRect>, transform: Transform },
    /// The buffer is not of the kind that is asked for any more.
    BufferConstraints,
    /// Something else went wrong.
    Failed,
}

/// What is done then. The buffer is handed on in any case.
#[derive(Debug, Clone, Copy, PartialEq, Eq, Structural)]
pub enum ProcessStep {
    /// The other side is told how the frame is turned, and of the pointer.
    Tell { transform: u32 },
    /// The formats are asked for again.
    UpdateFormats,
    Nothing,
}

impl StreamData {
    /// What follows from a capture into a buffer: a frame brings the buffer up to date, and the
    /// others are out of date by what changed.
    pub fn process(&mut self, buffer: u64, reply: CaptureReply) -> (r: ProcessStep)
        requires
            old(self).damage.wf(),
        ensures
            final(self).damage.wf(),
            *final(self) == (StreamData { damage: final(self).damage, ..*old(self) }),
            match reply {
                CaptureReply::Frame { damage, transform } => {
                    &&& r == (ProcessStep::Tell { transform: transform_number(transform) })
                    &&& final(self).damage@ == after_frame(old(self).damage@, buffer, damage@)
                },
                CaptureReply::BufferConstraints => r == ProcessStep::UpdateFormats
                    && final(self).damage == old(self).damage,
                CaptureReply::Failed => r == ProcessStep::Nothing && final(self).damage == old(
                    self,
                ).damage,
            },
    {
        match reply {
            CaptureReply::Frame { damage, transform } => {
                self.damage.on_frame(buffer, &damage);
                ProcessStep::Tell { transform: convert_transform(transform) }
            },
            CaptureReply::BufferConstraints => ProcessStep::UpdateFormats,
            CaptureReply::Failed => ProcessStep::Nothing,
        }
    }
}

/// A plane is told as it lies in the buffer: at its offset, with its stride, and as long as all its lines.
pub proof fn law_plane_is_told_as_it_lies(plane: Plane, height: u32)
    requires
        height * plane.stride <= u32::MAX,
        plane.stride <= i32::MAX,
    ensures
        plane_data(plane, height).kind is DmaBuf,
        plane_data(plane, height).chunk.offset == plane.offset,
        plane_data(plane, height).chunk.stride == plane.stride,
        plane_data(plane, height).chunk.size == height * plane.stride,
{
    assert(0 <= height * plane.stride) by (nonlinear_arith);
}

} // verus!
