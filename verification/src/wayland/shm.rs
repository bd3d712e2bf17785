//! Pictures in shared memory.

use crate::screencast::thread::FOURCC_ABGR8888;
use crate::screenshot::geometry::Transform;
use crate::screenshot::picture::{byte_len, png_file, write_png, Picture, PictureView};
use image::metadata::Orientation;
use vstd::prelude::*;

verus! {

/// The size in bytes of a file in memory that holds a picture.
pub fn memfd_size(width: u32, height: u32) -> (r: u32)
    requires
        byte_len(width as int, height as int) <= u32::MAX,
    ensures
        r == byte_len(width as int, height as int),
{
    proof {
        assert(0 <= width * height) by (nonlinear_arith);
    }
    width * height * 4
}

/// How a buffer lies in a file in memory.
#[derive(Debug, Clone, Copy, PartialEq, Eq, Structural)]
pub struct ShmBuffer {
    /// The size of the file.
    pub pool_size: i32,
    pub offset: i32,
    pub width: i32,
    pub height: i32,
    pub stride: i32,
    pub format: u32,
}

/// How a buffer lies in a file in memory that holds nothing else.
pub fn create_shm_buffer(width: u32, height: u32, stride: u32, format: u32) -> (r: ShmBuffer)
    requires
        width <= i32::MAX,
        height <= i32::MAX,
        stride * height <= i32::MAX,
        stride <= i32::MAX,
    ensures
        r == (ShmBuffer {
            pool_size: (stride * height) as i32,
            offset: 0,
            width: width as i32,
            height: height as i32,
            stride: stride as i32,
            format,
        }),
{
    ShmBuffer {
        pool_size: stride as i32 * height as i32,
        offset: 0,
        width: width as i32,
        height: height as i32,
        stride: stride as i32,
        format,
    }
}

/// The kind of memory a buffer is in.
#[derive(Debug, Clone, Copy, PartialEq, Eq, Structural)]
pub enum BufferType {
    WlShm,
    Dmabuf,
}

/// A buffer into which an output can be captured.
#[derive(Debug, Clone, Copy, PartialEq, Eq, Structural)]
pub struct BufferInfo {
    pub kind: BufferType,
    pub format: u32,
    pub width: u32,
    pub height: u32,
    pub stride: u32,
}

/// Whether a buffer is in shared memory and holds pixels in the order in which pictures do.
pub open spec fn is_plain(info: BufferInfo) -> bool {
    info.kind == BufferType::WlShm && info.format == FOURCC_ABGR8888
}

/// The first of the buffers that is in shared memory and holds pixels as pictures do.
pub open spec fn first_plain(infos: Seq<BufferInfo>) -> Option<BufferInfo>
    decreases infos.len(),
{
    if infos.len() == 0 {
        None
    } else if is_plain(infos[0]) {
        Some(infos[0])
    } else {
        first_plain(infos.skip(1))
    }
}

/// The first of the buffers that is in shared memory and holds pixels as pictures do.
pub fn find_plain(infos: &Vec<BufferInfo>) -> (r: Option<BufferInfo>)
    ensures
        r == first_plain(infos@),
{
    let mut i: usize = 0;
    proof {
        assert(infos@.skip(0) =~= infos@);
    }
    while i < infos.len()
        invariant
            i <= infos@.len(),
            first_plain(infos@) == first_plain(infos@.skip(i as int)),
        decreases infos@.len() - i,
    {
        proof {
            assert(infos@.skip(i as int)[0] == infos@[i as int]);
            assert(infos@.skip(i as int).skip(1) =~= infos@.skip(i + 1));
        }
        let info = infos[i];
        if info.kind == BufferType::WlShm && info.format == FOURCC_ABGR8888 {
            return Some(info);
        }
        i = i + 1;
    }
    None
}

/// A capture into a file in memory.
#[derive(Debug, Clone, Copy, PartialEq, Eq, Structural)]
pub struct ShmCapture {
    /// The size that the file gets, unless it came with a size.
    pub resize: Option<u32>,
    pub buffer: ShmBuffer,
}

/// How an output is captured into a file in memory; not at all where the file came with a size and
/// that is not the size of the buffer.
pub fn capture_output_shm_fd(info: BufferInfo, len: Option<u32>) -> (r: Option<ShmCapture>)
    requires
        info.width <= i32::MAX,
        info.height <= i32::MAX,
        info.stride <= i32::MAX,
        info.stride * info.height <= i32::MAX,
    ensures
        match len {
            Some(len) => r is Some <==> len == info.stride * info.height,
            None => r is Some,
        },
        r matches Some(capture) ==> {
            &&& capture.resize == match len {
                Some(_) => None,
                None => Some((info.stride * info.height) as u32),
            }
            &&& capture.buffer == (ShmBuffer {
                pool_size: (info.stride * info.height) as i32,
                offset: 0,
                width: info.width as i32,
                height: info.height as i32,
                stride: info.stride as i32,
                format: FOURCC_ABGR8888,
            })
        },
{
    let buf_len: u32 = info.stride * info.height;
    let resize = match len {
        Some(len) => {
            if len != buf_len {
                return None;
            }
            None
        },
        None => Some(buf_len),
    };
    let buffer = create_shm_buffer(info.width, info.height, info.stride, FOURCC_ABGR8888);
    Some(ShmCapture { resize, buffer })
}

/// A picture in shared memory.
#[derive(Debug)]
pub struct ShmImage {
    pub width: u32,
    pub height: u32,
    pub transform: Transform,
    /// What is in the memory.
    pub data: Vec<u8>,
}

/// Why a picture in shared memory cannot be read.
#[derive(Debug, Clone, Copy, PartialEq, Eq, Structural)]
pub enum ShmError {
    /// The memory is too small for the picture.
    IncorrectSize,
}

impl ShmImage {
    /// Whether the memory holds all pixels.
    pub open spec fn is_whole(self) -> bool {
        byte_len(self.width as int, self.height as int) <= self.data@.len()
    }

    /// The pixels, as they lie in the memory.
    pub open spec fn pixels(self) -> PictureView {
        PictureView {
            width: self.width,
            height: self.height,
            data: self.data@.take(byte_len(self.width as int, self.height as int)),
        }
    }

    /// The picture, as it lies in the memory.
    pub fn image(&self) -> (r: Result<Picture, ShmError>)
        ensures
            match r {
                Ok(picture) => self.is_whole() && picture@ == self.pixels() && picture.wf(),
                Err(error) => !self.is_whole() && error == ShmError::IncorrectSize,
            },
    {
        proof {
            assert(0 <= self.width * self.height <= 0xffff_ffff * 0xffff_ffff) by (nonlinear_arith)
                requires
                    0 <= self.width <= 0xffff_ffff,
                    0 <= self.height <= 0xffff_ffff,
            ;
        }
        let n: u128 = 4 * (self.width as u128 * self.height as u128);
        if n > self.data.len() as u128 {
            return Err(ShmError::IncorrectSize);
        }
        let mut data = self.data.clone();
        proof {
            assert(data@ =~= self.data@);
        }
        data.truncate(n as usize);
        proof {
            assert(data@ =~= self.pixels().data);
        }
        Ok(Picture { width: self.width, height: self.height, data })
    }

    /// The picture, turned as the output is.
    pub fn image_transformed(&self) -> (r: Result<Picture, ShmError>)
        ensures
            match r {
                Ok(picture) => self.is_whole() && picture@ == oriented(
                    self.pixels(),
                    self.transform,
                ) && picture.wf(),
                Err(error) => !self.is_whole() && error == ShmError::IncorrectSize,
            },
    {
        match self.image() {
            Ok(picture) => Ok(apply_orientation(&picture, self.transform)),
            Err(error) => Err(error),
        }
    }

    /// The picture as a PNG file, as it lies in the memory. There is none for a picture without
    /// pixels, nor where the memory holds more or less than the pixels.
    pub fn write_to_png(&self) -> (r: Option<Vec<u8>>)
        ensures
            match r {
                Some(bytes) => {
                    &&& self.data@.len() == byte_len(self.width as int, self.height as int)
                    &&& png_file(self.width, self.height, self.data@) == Some(bytes@)
                },
                None => {
                    ||| self.data@.len() != byte_len(self.width as int, self.height as int)
                    ||| png_file(self.width, self.height, self.data@) is None
                },
            },
    {
        match self.image() {
            Ok(picture) => {
                if picture.data.len() != self.data.len() {
                    return None;
                }
                proof {
                    assert(picture.data@ =~= self.data@);
                }
                write_png(&picture)
            },
            Err(_) => None,
        }
    }
}

/// Where the pixel of a turned picture stands in the picture of the given size before it was turned.
pub open spec fn origin(transform: Transform, width: int, height: int, x: int, y: int) -> (int, int) {
    match transform {
        Transform::Normal => (x, y),
        Transform::Rotated90 => (y, height - 1 - x),
        Transform::Rotated180 => (width - 1 - x, height - 1 - y),
        Transform::Rotated270 => (width - 1 - y, x),
        Transform::Flipped => (width - 1 - x, y),
        Transform::Flipped90 => (y, x),
        Transform::Flipped180 => (x, height - 1 - y),
        Transform::Flipped270 => (width - 1 - y, height - 1 - x),
    }
}

/// Where a byte of a pixel stands in the data of a picture of a width.
pub open spec fn byte_index(width: int, x: int, y: int, channel: int) -> int {
    4 * (y * width + x) + channel
}

/// The byte that comes to stand at a place when a picture is turned.
pub open spec fn turned_byte(p: PictureView, transform: Transform, i: int) -> u8 {
    let w = if transform.spec_swaps() {
        p.height as int
    } else {
        p.width as int
    };
    let (x, y) = origin(transform, p.width as int, p.height as int, (i / 4) % w, (i / 4) / w);
    p.data[byte_index(p.width as int, x, y, i % 4)]
}

/// A picture that was turned.
pub open spec fn oriented(p: PictureView, transform: Transform) -> PictureView {
    PictureView {
        width: if transform.spec_swaps() {
            p.height
        } else {
            p.width
        },
        height: if transform.spec_swaps() {
            p.width
        } else {
            p.height
        },
        data: Seq::new(
            byte_len(p.width as int, p.height as int) as nat,
            |i: int| turned_byte(p, transform, i),
        ),
    }
}

/// A picture that was turned by `image::DynamicImage::apply_orientation`: clockwise by the angle, and
/// a flipped one is mirrored at the vertical axis afterwards. Mirroring after half a turn is
/// `Orientation::FlipVertical`.
#[verifier::external_body]
fn apply_orientation(p: &Picture, transform: Transform) -> (r: Picture)
    requires
        p.wf(),
    ensures
        r@ == oriented(p@, transform),
        r.wf(),
{
    let source = image::RgbaImage::from_raw(p.width, p.height, p.data.clone()).unwrap();
    let mut out = image::DynamicImage::from(source);
    out.apply_orientation(match transform {
        Transform::Normal => Orientation::NoTransforms,
        Transform::Rotated90 => Orientation::Rotate90,
        Transform::Rotated180 => Orientation::Rotate180,
        Transform::Rotated270 => Orientation::Rotate270,
        Transform::Flipped => Orientation::FlipHorizontal,
        Transform::Flipped90 => Orientation::Rotate90FlipH,
        Transform::Flipped180 => Orientation::FlipVertical,
        Transform::Flipped270 => Orientation::Rotate270FlipH,
    });
    let out = out.into_rgba8();
    Picture { width: out.width(), height: out.height(), data: out.into_raw() }
}

/// The turn that takes another one back.
pub open spec fn turned_back(transform: Transform) -> Transform {
    match transform {
        Transform::Rotated90 => Transform::Rotated270,
        Transform::Rotated270 => Transform::Rotated90,
        other => other,
    }
}

/// A place in the data is a byte of a pixel.
proof fn lemma_byte_place(width: int, height: int, i: int)
    requires
        0 <= i < byte_len(width, height),
        0 <= width,
        0 <= height,
    ensures
        width > 0,
        0 <= (i / 4) % width < width,
        0 <= (i / 4) / width < height,
        i == byte_index(width, (i / 4) % width, (i / 4) / width, i % 4),
{
    let n = i / 4;
    if width == 0 {
        assert(width * height == 0) by (nonlinear_arith)
            requires
                width == 0,
        ;
    }
    assert(0 <= n < width * height);
    assert(0 <= n / width < height && 0 <= n % width < width && n == n / width * width + n % width)
        by (nonlinear_arith)
        requires
            width > 0,
            0 <= n < width * height,
    ;
}

/// A byte of a pixel has its place in the data.
proof fn lemma_place_of_byte(width: int, height: int, x: int, y: int, channel: int)
    requires
        0 <= x < width,
        0 <= y < height,
        0 <= channel < 4,
    ensures
        0 <= byte_index(width, x, y, channel) < byte_len(width, height),
        byte_index(width, x, y, channel) / 4 == y * width + x,
        byte_index(width, x, y, channel) % 4 == channel,
        (y * width + x) % width == x,
        (y * width + x) / width == y,
{
    let n = y * width + x;
    assert(0 <= n < width * height) by (nonlinear_arith)
        requires
            n == y * width + x,
            0 <= x < width,
            0 <= y < height,
    ;
    assert(n % width == x && n / width == y) by (nonlinear_arith)
        requires
            n == y * width + x,
            0 <= x < width,
            0 <= y,
    ;
}

/// A picture that is turned and turned back is the same picture.
pub proof fn law_turns_are_taken_back(p: PictureView, transform: Transform)
    requires
        p.wf(),
    ensures
        oriented(oriented(p, transform), turned_back(transform)) == p,
{
    let q = oriented(p, transform);
    let r = oriented(q, turned_back(transform));
    let w = p.width as int;
    let h = p.height as int;
    assert(byte_len(w, h) == byte_len(h, w) && 0 <= byte_len(w, h)) by {
        assert(w * h == h * w && 0 <= w * h) by (nonlinear_arith)
            requires
                0 <= w,
                0 <= h,
        ;
    }
    assert(r.data.len() == p.data.len());
    assert forall|i: int| 0 <= i < r.data.len() implies r.data[i] == p.data[i] by {
        lemma_byte_place(w, h, i);
        let x = (i / 4) % w;
        let y = (i / 4) / w;
        let c = i % 4;
        let (qw, qh) = (q.width as int, q.height as int);
        let (u, v) = origin(turned_back(transform), qw, qh, x, y);
        lemma_place_of_byte(qw, qh, u, v, c);
        let j = byte_index(qw, u, v, c);
        assert(r.data[i] == turned_byte(q, turned_back(transform), i));
        assert(r.data[i] == q.data[j]);
        assert(q.data[j] == turned_byte(p, transform, j));
    }
    assert(r.data =~= p.data);
}

/// The bytes of pixels, with the first and the third of each pixel in each other's place.
pub open spec fn swapped(bytes: Seq<u8>) -> Seq<u8> {
    Seq::new(
        bytes.len(),
        |i: int|
            if i % 4 == 0 {
                bytes[i + 2]
            } else if i % 4 == 2 {
                bytes[i - 2]
            } else {
                bytes[i]
            },
    )
}

/// Puts blue and red in each other's place.
pub fn swap_red_and_blue(bytes: &mut Vec<u8>)
    requires
        old(bytes)@.len() % 4 == 0,
    ensures
        final(bytes)@ == swapped(old(bytes)@),
{
    let ghost all = bytes@;
    let n: usize = bytes.len();
    let mut i: usize = 0;
    while i < n
        invariant
            i <= n,
            i % 4 == 0,
            n % 4 == 0,
            n == bytes@.len(),
            all.len() == n,
            forall|j: int| 0 <= j < i ==> bytes@[j] == swapped(all)[j],
            forall|j: int| i <= j < n ==> bytes@[j] == all[j],
        decreases n - i,
    {
        let first: u8 = bytes[i];
        let third: u8 = bytes[i + 2];
        bytes.set(i, third);
        bytes.set(i + 2, first);
        i = i + 4;
    }
    proof {
        assert(bytes@ =~= swapped(all));
    }
}

/// Red and blue that changed places twice are where they were.
pub proof fn law_swapping_twice_undoes(bytes: Seq<u8>)
    requires
        bytes.len() % 4 == 0,
    ensures
        swapped(swapped(bytes)) == bytes,
{
    assert(swapped(swapped(bytes)) =~= bytes);
}

/// The buffer that is used is the first one in shared memory with pixels of red, green, blue and opacity;
/// none is where there is no such buffer.
pub proof fn law_plain_buffer_is_used(infos: Seq<BufferInfo>, k: int)
    ensures
        0 <= k < infos.len() && infos[k].kind is WlShm && infos[k].format == 0x3432_4241 && (forall|
            i: int,
        |
            0 <= i < k ==> !((#[trigger] infos[i]).kind is WlShm && infos[i].format == 0x3432_4241))
            ==> first_plain(infos) == Some(infos[k]),
        (forall|i: int|
            0 <= i < infos.len() ==> !((#[trigger] infos[i]).kind is WlShm && infos[i].format
                == 0x3432_4241)) ==> first_plain(infos) is None,
    decreases infos.len(),
{
    if infos.len() > 0 && !is_plain(infos[0]) {
        let rest = infos.skip(1);
        law_plain_buffer_is_used(rest, k - 1);
        if forall|i: int|
            0 <= i < k ==> !((#[trigger] infos[i]).kind is WlShm && infos[i].format == 0x3432_4241) {
            assert forall|i: int| 0 <= i < k - 1 && i < rest.len() implies !(
            (#[trigger] rest[i]).kind is WlShm && rest[i].format == 0x3432_4241) by {
                assert(rest[i] == infos[i + 1]);
            }
        }
        if forall|i: int|
            0 <= i < infos.len() ==> !((#[trigger] infos[i]).kind is WlShm && infos[i].format
                == 0x3432_4241) {
            assert forall|i: int| 0 <= i < rest.len() implies !((#[trigger] rest[i]).kind is WlShm
                && rest[i].format == 0x3432_4241) by {
                assert(rest[i] == infos[i + 1]);
            }
        }
    }
}

} // verus!
