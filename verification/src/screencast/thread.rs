//! A stream of frames: which formats it offers, how it settles on one, and what of a buffer is out of
//! date.

use crate::screenshot::geometry::Transform;
use vstd::prelude::*;

verus! {

/// The code of pixels of red, green, blue and opacity, one byte each in this order.
pub const FOURCC_ABGR8888: u32 = 0x3432_4241;

/// The code of pixels of blue, green, red and opacity.
pub const FOURCC_ARGB8888: u32 = 0x3432_5241;

/// The code of pixels of blue, green, red and a byte without meaning.
pub const FOURCC_XRGB8888: u32 = 0x3432_5258;

/// The number of the format with opacity among those of shared memory.
pub const SHM_ARGB8888: u32 = 0;

/// The number of the format without opacity among those of shared memory.
pub const SHM_XRGB8888: u32 = 1;

/// The modifier that says nothing of how pixels lie in memory.
pub const MODIFIER_INVALID: u64 = 0x00ff_ffff_ffff_ffff;

/// A format of a stream.
#[derive(Debug, Clone, Copy, PartialEq, Eq, Structural)]
pub enum VideoFormat {
    Rgba,
    Bgra,
}

/// The format of a stream for pixels with a code.
pub open spec fn video_format(fourcc: u32) -> Option<VideoFormat> {
    if fourcc == FOURCC_ABGR8888 {
        Some(VideoFormat::Rgba)
    } else if fourcc == FOURCC_ARGB8888 {
        Some(VideoFormat::Bgra)
    } else {
        None
    }
}

/// The code of the pixels of a stream.
pub open spec fn fourcc_of(format: VideoFormat) -> u32 {
    match format {
        VideoFormat::Rgba => FOURCC_ABGR8888,
        VideoFormat::Bgra => FOURCC_ARGB8888,
    }
}

/// The format of a stream for pixels with a code, if there is one.
pub fn spa_format(fourcc: u32) -> (r: Option<VideoFormat>)
    ensures
        r == video_format(fourcc),
{
    if fourcc == FOURCC_ABGR8888 {
        Some(VideoFormat::Rgba)
    } else if fourcc == FOURCC_ARGB8888 {
        Some(VideoFormat::Bgra)
    } else {
        None
    }
}

/// The code of the pixels of a stream.
pub fn spa_format_to_gbm(format: VideoFormat) -> (r: u32)
    ensures
        r == fourcc_of(format),
{
    match format {
        VideoFormat::Rgba => FOURCC_ABGR8888,
        VideoFormat::Bgra => FOURCC_ARGB8888,
    }
}

/// The code of pixels in shared memory, given whether graphics cards have a format under the number.
pub open spec fn fourcc_of_shm(format: u32, listed: bool) -> Option<u32> {
    if format == SHM_ARGB8888 {
        Some(FOURCC_ARGB8888)
    } else if format == SHM_XRGB8888 {
        Some(FOURCC_XRGB8888)
    } else if listed {
        Some(format)
    } else {
        None
    }
}

/// Whether `wayland_client` has a format of shared memory with a number.
pub uninterp spec fn lists_shm_format(number: u32) -> bool;

/// The format of shared memory with a number, as `wayland_client::protocol::wl_shm::Format` lists
/// them: its conversion from a number finds the format with that number or none, and the conversion
/// back gives the number. The code of pixels of red, green, blue and opacity is among the numbers.
#[verifier::external_body]
fn find_shm_format(number: u32) -> (r: Option<u32>)
    ensures
        r == if lists_shm_format(number) {
            Some(number)
        } else {
            None
        },
        number == FOURCC_ABGR8888 ==> r is Some,
{
    match wayland_client::protocol::wl_shm::Format::try_from(number) {
        Ok(format) => Some(u32::from(format)),
        Err(()) => None,
    }
}

/// The number of the format in shared memory for pixels with a code: two have numbers of their own,
/// and the others go by their codes, as far as there is such a format.
pub open spec fn shm_of_fourcc(fourcc: u32) -> Option<u32> {
    if fourcc == FOURCC_ARGB8888 {
        Some(SHM_ARGB8888)
    } else if fourcc == FOURCC_XRGB8888 {
        Some(SHM_XRGB8888)
    } else if lists_shm_format(fourcc) {
        Some(fourcc)
    } else {
        None
    }
}

/// The number of the format in shared memory for pixels with a code, if there is one: there is for
/// all formats of streams.
pub fn shm_format(fourcc: u32) -> (r: Option<u32>)
    ensures
        r == shm_of_fourcc(fourcc),
        video_format(fourcc) is Some ==> r is Some,
{
    if fourcc == FOURCC_ARGB8888 {
        Some(SHM_ARGB8888)
    } else if fourcc == FOURCC_XRGB8888 {
        Some(SHM_XRGB8888)
    } else {
        find_shm_format(fourcc)
    }
}

/// The code of pixels in shared memory, if there is one, given whether graphics cards have a format
/// under the number.
pub fn shm_format_to_gbm(format: u32, listed: bool) -> (r: Option<u32>)
    ensures
        r == fourcc_of_shm(format, listed),
{
    if format == SHM_ARGB8888 {
        Some(FOURCC_ARGB8888)
    } else if format == SHM_XRGB8888 {
        Some(FOURCC_XRGB8888)
    } else if listed {
        Some(format)
    } else {
        None
    }
}

/// Formats lead to codes and back.
pub proof fn law_formats_return(format: VideoFormat, fourcc: u32)
    ensures
        video_format(fourcc_of(format)) == Some(format),
        video_format(fourcc) matches Some(format) ==> fourcc_of(format) == fourcc,
        fourcc > 1 ==> (shm_of_fourcc(fourcc) matches Some(number) ==> fourcc_of_shm(number, true)
            == Some(fourcc)),
{
}

/// What can be captured: how large, and in which formats.
#[derive(Debug)]
pub struct Formats {
    pub buffer_size: (u32, u32),
    /// The graphics card on which buffers are made, if it is not the one that is used otherwise.
    pub dmabuf_device: Option<u64>,
    /// The codes of pixels in buffers of the graphics card, with their modifiers.
    pub dmabuf_formats: Vec<(u32, Vec<u64>)>,
    /// The numbers of formats in shared memory.
    pub shm_formats: Vec<u32>,
}

/// What can be captured, as a value.
pub struct FormatsView {
    pub buffer_size: (u32, u32),
    pub dmabuf_device: Option<u64>,
    pub dmabuf_formats: Seq<(u32, Seq<u64>)>,
    pub shm_formats: Seq<u32>,
}

impl View for Formats {
    type V = FormatsView;

    open spec fn view(&self) -> FormatsView {
        FormatsView {
            buffer_size: self.buffer_size,
            dmabuf_device: self.dmabuf_device,
            dmabuf_formats: self.dmabuf_formats@.map_values(
                |entry: (u32, Vec<u64>)| (entry.0, entry.1@),
            ),
            shm_formats: self.shm_formats@,
        }
    }
}

/// What a format of a stream says of modifiers.
#[derive(Debug)]
pub enum ModifierParam {
    /// Nothing: the stream is in shared memory.
    Absent,
    /// The modifier that was settled on.
    Fixed(u64),
    /// The modifiers to choose from; the first of them is the default.
    Choice(Vec<u64>),
}

/// What a format of a stream says of modifiers, as a value.
pub enum ModifierView {
    Absent,
    Fixed(u64),
    Choice(Seq<u64>),
}

impl View for ModifierParam {
    type V = ModifierView;

    open spec fn view(&self) -> ModifierView {
        match self {
            ModifierParam::Absent => ModifierView::Absent,
            ModifierParam::Fixed(modifier) => ModifierView::Fixed(*modifier),
            ModifierParam::Choice(modifiers) => ModifierView::Choice(modifiers@),
        }
    }
}

/// A format that a stream offers: raw video, sixty frames in a second.
#[derive(Debug)]
pub struct FormatParam {
    pub format: VideoFormat,
    pub size: (u32, u32),
    pub modifier: ModifierParam,
}

/// A format that a stream offers, as a value.
pub struct FormatView {
    pub format: VideoFormat,
    pub size: (u32, u32),
    pub modifier: ModifierView,
}

impl View for FormatParam {
    type V = FormatView;

    open spec fn view(&self) -> FormatView {
        FormatView { format: self.format, size: self.size, modifier: self.modifier@ }
    }
}

/// Formats that a stream offers, as values.
pub open spec fn format_views(params: Seq<FormatParam>) -> Seq<FormatView> {
    params.map_values(|param: FormatParam| param@)
}

/// The modifiers that say how pixels lie in memory.
pub open spec fn explicit(modifiers: Seq<u64>) -> Seq<u64>
    decreases modifiers.len(),
{
    if modifiers.len() == 0 {
        Seq::empty()
    } else if modifiers.last() == MODIFIER_INVALID {
        explicit(modifiers.drop_last())
    } else {
        explicit(modifiers.drop_last()).push(modifiers.last())
    }
}

/// The modifiers of the first entry with a code.
pub open spec fn modifiers_of(formats: Seq<(u32, Seq<u64>)>, fourcc: u32) -> Seq<u64>
    decreases formats.len(),
{
    if formats.len() == 0 {
        Seq::empty()
    } else if formats[0].0 == fourcc {
        formats[0].1
    } else {
        modifiers_of(formats.skip(1), fourcc)
    }
}

/// What a format says of modifiers: the one that was settled on; for buffers of the graphics card
/// those to choose from, without the one that says nothing; nothing otherwise. None where there is
/// nothing to choose from.
pub open spec fn modifier_param(
    dmabuf: bool,
    fourcc: u32,
    fixated: Option<u64>,
    formats: FormatsView,
) -> Option<ModifierView> {
    match fixated {
        Some(modifier) => Some(ModifierView::Fixed(modifier)),
        None => if dmabuf {
            let modifiers = explicit(modifiers_of(formats.dmabuf_formats, fourcc));
            if modifiers.len() > 0 {
                Some(ModifierView::Choice(modifiers))
            } else {
                None
            }
        } else {
            Some(ModifierView::Absent)
        },
    }
}

/// The format of a stream for pixels with a code: none, or one.
pub open spec fn format_for(
    dmabuf: bool,
    fourcc: u32,
    fixated: Option<u64>,
    formats: FormatsView,
) -> Seq<FormatView> {
    match (video_format(fourcc), modifier_param(dmabuf, fourcc, fixated, formats)) {
        (Some(format), Some(modifier)) => seq![
            FormatView { format, size: formats.buffer_size, modifier },
        ],
        _ => Seq::empty(),
    }
}

/// The formats for buffers of the graphics card.
pub open spec fn dmabuf_params(codes: Seq<(u32, Seq<u64>)>, formats: FormatsView) -> Seq<FormatView>
    decreases codes.len(),
{
    if codes.len() == 0 {
        Seq::empty()
    } else {
        dmabuf_params(codes.drop_last(), formats) + format_for(
            true,
            codes.last().0,
            None,
            formats,
        )
    }
}

/// The formats of a stream for a format of shared memory. The codes of streams are codes of formats
/// that graphics cards have; the others lead to no format of a stream.
pub open spec fn shm_param(number: u32, formats: FormatsView) -> Seq<FormatView> {
    match fourcc_of_shm(number, video_format(number) is Some) {
        Some(fourcc) => format_for(false, fourcc, None, formats),
        None => Seq::empty(),
    }
}

/// The formats for shared memory.
pub open spec fn shm_params(numbers: Seq<u32>, formats: FormatsView) -> Seq<FormatView>
    decreases numbers.len(),
{
    if numbers.len() == 0 {
        Seq::empty()
    } else {
        shm_params(numbers.drop_last(), formats) + shm_param(numbers.last(), formats)
    }
}

/// The formats that a stream offers, best first: the one that was settled on, then those for buffers
/// of the graphics card, if there is one, then those for shared memory.
pub open spec fn offered(
    dmabuf: bool,
    fixated: Option<(u32, u64)>,
    formats: FormatsView,
) -> Seq<FormatView> {
    (match fixated {
        Some((fourcc, modifier)) => format_for(false, fourcc, Some(modifier), formats),
        None => Seq::empty(),
    }) + (if dmabuf {
        dmabuf_params(formats.dmabuf_formats, formats)
    } else {
        Seq::empty()
    }) + shm_params(formats.shm_formats, formats)
}

/// The modifiers that say how pixels lie in memory.
fn explicit_modifiers(modifiers: &Vec<u64>) -> (r: Vec<u64>)
    ensures
        r@ == explicit(modifiers@),
{
    let mut r: Vec<u64> = Vec::new();
    let mut i: usize = 0;
    proof {
        assert(modifiers@.take(0) =~= Seq::<u64>::empty());
    }
    while i < modifiers.len()
        invariant
            i <= modifiers@.len(),
            r@ == explicit(modifiers@.take(i as int)),
        decreases modifiers@.len() - i,
    {
        proof {
            assert(modifiers@.take(i + 1).drop_last() =~= modifiers@.take(i as int));
            assert(modifiers@.take(i + 1).last() == modifiers@[i as int]);
        }
        if modifiers[i] != MODIFIER_INVALID {
            r.push(modifiers[i]);
        }
        i = i + 1;
    }
    proof {
        assert(modifiers@.take(modifiers@.len() as int) =~= modifiers@);
    }
    r
}

impl Formats {
    /// The modifiers to choose from for a code.
    fn choices(&self, fourcc: u32) -> (r: Vec<u64>)
        ensures
            r@ == explicit(modifiers_of(self@.dmabuf_formats, fourcc)),
    {
        let ghost all = self@.dmabuf_formats;
        let mut i: usize = 0;
        proof {
            assert(all.skip(0) =~= all);
        }
        while i < self.dmabuf_formats.len()
            invariant
                i <= self.dmabuf_formats@.len(),
                all == self@.dmabuf_formats,
                modifiers_of(all, fourcc) == modifiers_of(all.skip(i as int), fourcc),
            decreases self.dmabuf_formats@.len() - i,
        {
            proof {
                assert(all.skip(i as int)[0] == all[i as int]);
                assert(all.skip(i as int).skip(1) =~= all.skip(i + 1));
            }
            if self.dmabuf_formats[i].0 == fourcc {
                return explicit_modifiers(&self.dmabuf_formats[i].1);
            }
            i = i + 1;
        }
        Vec::new()
    }

    /// The format of a stream for pixels with a code, if it has one.
    fn format_param(&self, dmabuf: bool, fourcc: u32, fixated: Option<u64>) -> (r: Option<FormatParam>)
        ensures
            format_for(dmabuf, fourcc, fixated, self@) == match r {
                Some(param) => seq![param@],
                None => Seq::empty(),
            },
    {
        let format = match spa_format(fourcc) {
            Some(format) => format,
            None => {
                return None;
            },
        };
        let modifier = match fixated {
            Some(modifier) => ModifierParam::Fixed(modifier),
            None => if dmabuf {
                let modifiers = self.choices(fourcc);
                if modifiers.len() == 0 {
                    return None;
                }
                ModifierParam::Choice(modifiers)
            } else {
                ModifierParam::Absent
            },
        };
        Some(FormatParam { format, size: self.buffer_size, modifier })
    }
}

/// Adds a format, if there is one.
fn add_param(params: &mut Vec<FormatParam>, param: Option<FormatParam>)
    ensures
        format_views(final(params)@) == format_views(old(params)@) + match param {
            Some(param) => seq![param@],
            None => Seq::empty(),
        },
{
    let ghost before = params@;
    if let Some(param) = param {
        params.push(param);
    }
    proof {
        assert(format_views(params@) =~= format_views(before) + match param {
            Some(param) => seq![param@],
            None => Seq::empty(),
        });
    }
}

/// The formats that a stream offers, best first.
pub fn format_params(dmabuf: bool, fixated: Option<(u32, u64)>, formats: &Formats) -> (r: Vec<
    FormatParam,
>)
    ensures
        format_views(r@) == offered(dmabuf, fixated, formats@),
{
    let ghost f = formats@;
    let mut params: Vec<FormatParam> = Vec::new();
    proof {
        assert(format_views(params@) =~= Seq::<FormatView>::empty());
    }
    if let Some((fourcc, modifier)) = fixated {
        let param = formats.format_param(false, fourcc, Some(modifier));
        add_param(&mut params, param);
    }
    let ghost first = format_views(params@);
    proof {
        assert(first =~= match fixated {
            Some((fourcc, modifier)) => format_for(false, fourcc, Some(modifier), f),
            None => Seq::empty(),
        });
    }
    if dmabuf {
        let ghost all = f.dmabuf_formats;
        let mut i: usize = 0;
        proof {
            assert(all.take(0) =~= Seq::<(u32, Seq<u64>)>::empty());
            assert(first + dmabuf_params(all.take(0), f) =~= first);
        }
        while i < formats.dmabuf_formats.len()
            invariant
                i <= formats.dmabuf_formats@.len(),
                f == formats@,
                all == f.dmabuf_formats,
                format_views(params@) == first + dmabuf_params(all.take(i as int), f),
            decreases formats.dmabuf_formats@.len() - i,
        {
            proof {
                assert(all.take(i + 1).drop_last() =~= all.take(i as int));
                assert(all.take(i + 1).last() == all[i as int]);
                assert(all[i as int].0 == formats.dmabuf_formats@[i as int].0);
            }
            let param = formats.format_param(true, formats.dmabuf_formats[i].0, None);
            add_param(&mut params, param);
            proof {
                assert(first + dmabuf_params(all.take(i + 1), f) =~= first + dmabuf_params(
                    all.take(i as int),
                    f,
                ) + format_for(true, all[i as int].0, None, f));
            }
            i = i + 1;
        }
        proof {
            assert(all.take(all.len() as int) =~= all);
        }
    }
    let ghost second = format_views(params@);
    proof {
        assert(second =~= first + (if dmabuf {
            dmabuf_params(f.dmabuf_formats, f)
        } else {
            Seq::empty()
        }));
    }
    let ghost numbers = f.shm_formats;
    let mut k: usize = 0;
    proof {
        assert(numbers.take(0) =~= Seq::<u32>::empty());
        assert(second + shm_params(numbers.take(0), f) =~= second);
    }
    while k < formats.shm_formats.len()
        invariant
            k <= formats.shm_formats@.len(),
            f == formats@,
            numbers == f.shm_formats,
            format_views(params@) == second + shm_params(numbers.take(k as int), f),
        decreases formats.shm_formats@.len() - k,
    {
        proof {
            assert(numbers.take(k + 1).drop_last() =~= numbers.take(k as int));
            assert(numbers.take(k + 1).last() == numbers[k as int]);
        }
        let number: u32 = formats.shm_formats[k];
        if let Some(fourcc) = shm_format_to_gbm(number, spa_format(number).is_some()) {
            let param = formats.format_param(false, fourcc, None);
            add_param(&mut params, param);
        }
        proof {
            assert(second + shm_params(numbers.take(k + 1), f) =~= second + shm_params(
                numbers.take(k as int),
                f,
            ) + shm_param(numbers[k as int], f));
        }
        k = k + 1;
    }
    proof {
        assert(numbers.take(numbers.len() as int) =~= numbers);
    }
    params
}

/// Modifiers that are offered say how pixels lie in memory.
pub proof fn law_offered_modifiers_are_explicit(modifiers: Seq<u64>, i: int)
    requires
        0 <= i < explicit(modifiers).len(),
    ensures
        explicit(modifiers)[i] != MODIFIER_INVALID,
        modifiers.contains(explicit(modifiers)[i]),
    decreases modifiers.len(),
{
    let init = modifiers.drop_last();
    if i < explicit(init).len() {
        law_offered_modifiers_are_explicit(init, i);
        let k = choose|k: int| 0 <= k < init.len() && init[k] == explicit(init)[i];
        assert(modifiers[k] == init[k]);
    } else {
        assert(modifiers[modifiers.len() - 1] == modifiers.last());
    }
}

/// The bytes of what is told of the pointer before its picture: number, flags, position, hot spot
/// and where the picture begins.
pub const CURSOR_HEAD_BYTES: usize = 28;

/// The bytes of what is told of the picture of the pointer: format, size, length of a row and where
/// the pixels begin.
pub const BITMAP_HEAD_BYTES: usize = 20;

/// How many bytes are told of a pointer whose picture has a size.
pub fn cursor_meta_size(width: u32, height: u32) -> (r: usize)
    requires
        CURSOR_HEAD_BYTES + BITMAP_HEAD_BYTES + width * height * 4 <= usize::MAX,
    ensures
        r == CURSOR_HEAD_BYTES + BITMAP_HEAD_BYTES + width * height * 4,
{
    proof {
        assert(0 <= width * height) by (nonlinear_arith)
            requires
                0 <= width,
                0 <= height,
        ;
    }
    CURSOR_HEAD_BYTES + BITMAP_HEAD_BYTES + width as usize * height as usize * 4
}

/// What is told of the pointer.
#[derive(Debug, Clone, Copy, PartialEq, Eq)]
pub struct CursorMeta {
    pub id: u32,
    pub position: (i32, i32),
    pub hotspot: (i32, i32),
    /// Where the picture begins; nowhere where there is none.
    pub bitmap_offset: u32,
    pub bitmap: Option<BitmapMeta>,
}

/// What is told of the picture of the pointer: in red, green, blue and opacity.
#[derive(Debug, Clone, Copy, PartialEq, Eq, Structural)]
pub struct BitmapMeta {
    pub width: u32,
    pub height: u32,
    pub stride: i32,
    pub offset: u32,
}

/// What is told of the pointer at a position, with the size of its picture.
pub fn cursor_meta(image: Option<(u32, u32)>, position: (i32, i32)) -> (r: CursorMeta)
    requires
        image matches Some((width, _)) ==> width * 4 <= i32::MAX,
    ensures
        r.id == 1,
        r.position == position,
        r.hotspot == (0i32, 0i32),
        match image {
            Some((width, height)) => r.bitmap_offset == CURSOR_HEAD_BYTES && r.bitmap == Some(
                BitmapMeta {
                    width,
                    height,
                    stride: (width * 4) as i32,
                    offset: BITMAP_HEAD_BYTES as u32,
                },
            ),
            None => r.bitmap_offset == 0 && r.bitmap is None,
        },
{
    match image {
        Some((width, height)) => CursorMeta {
            id: 1,
            position,
            hotspot: (0, 0),
            bitmap_offset: CURSOR_HEAD_BYTES as u32,
            bitmap: Some(
                BitmapMeta {
                    width,
                    height,
                    stride: width as i32 * 4,
                    offset: BITMAP_HEAD_BYTES as u32,
                },
            ),
        },
        None => CursorMeta { id: 1, position, hotspot: (0, 0), bitmap_offset: 0, bitmap: None },
    }
}

/// What a stream says of its buffers.
#[derive(Debug, Clone, Copy, PartialEq, Eq, Structural)]
pub struct BuffersParam {
    /// Whether buffers of the graphics card are possible, and then preferred; shared memory always
    /// is possible.
    pub allow_dmabuf: bool,
    pub size: i32,
    pub stride: i32,
    pub align: i32,
    pub blocks: i32,
    pub default_count: i32,
    pub min_count: i32,
    pub max_count: i32,
}

/// What a stream says of its buffers and of what comes with a frame.
#[derive(Debug, Clone, Copy, PartialEq, Eq, Structural)]
pub enum OtherParam {
    Buffers(BuffersParam),
    /// How the picture is turned.
    VideoTransform,
    /// Where the pointer is and how it looks, in so many bytes.
    Cursor { size: i32 },
}

/// The size of the picture of the pointer that there is room for.
pub const CURSOR_SIDE: u32 = 64;

/// What a stream says of its buffers and of what comes with a frame.
pub open spec fn buffer_params(width: u32, height: u32, blocks: u32, allow_dmabuf: bool) -> Seq<
    OtherParam,
> {
    seq![
        OtherParam::Buffers(
            BuffersParam {
                allow_dmabuf,
                size: (width * height * 4) as i32,
                stride: (width * 4) as i32,
                align: 16,
                blocks: blocks as i32,
                default_count: 4,
                min_count: 1,
                max_count: 32,
            },
        ),
        OtherParam::VideoTransform,
        OtherParam::Cursor {
            size: (CURSOR_HEAD_BYTES + BITMAP_HEAD_BYTES + CURSOR_SIDE * CURSOR_SIDE * 4) as i32,
        },
    ]
}

/// What a stream says of its buffers and of what comes with a frame.
pub fn other_params(width: u32, height: u32, blocks: u32, allow_dmabuf: bool) -> (r: Vec<OtherParam>)
    requires
        width * 4 <= i32::MAX,
        height <= i32::MAX,
        width * height * 4 <= i32::MAX,
    ensures
        r@ == buffer_params(width, height, blocks, allow_dmabuf),
{
    proof {
        assert(0 <= width * height) by (nonlinear_arith)
            requires
                0 <= width,
                0 <= height,
        ;
    }
    let size: i32 = width as i32 * height as i32 * 4;
    let mut params: Vec<OtherParam> = Vec::new();
    params.push(
        OtherParam::Buffers(
            BuffersParam {
                allow_dmabuf,
                size,
                stride: width as i32 * 4,
                align: 16,
                blocks: blocks as i32,
                default_count: 4,
                min_count: 1,
                max_count: 32,
            },
        ),
    );
    params.push(OtherParam::VideoTransform);
    let cursor: usize = cursor_meta_size(CURSOR_SIDE, CURSOR_SIDE);
    params.push(OtherParam::Cursor { size: cursor as i32 });
    proof {
        assert(params@ =~= buffer_params(width, height, blocks, allow_dmabuf));
    }
    params
}

/// What the other side says of modifiers.
#[derive(Debug)]
pub enum ModifierChoice {
    /// Nothing.
    Absent,
    /// Something that cannot be read.
    Invalid,
    /// The modifier is settled.
    Settled,
    /// One of these is to be chosen, the first of them by default.
    Open(Vec<u64>),
}

/// What the other side says of a stream.
#[derive(Debug)]
pub enum ParamEvent {
    /// Something else than the format.
    Other,
    /// The format, if it is known, and the modifier.
    Format { format: Option<VideoFormat>, modifier: ModifierChoice },
}

/// What is to be done.
#[derive(Debug)]
pub enum ParamAction {
    Nothing,
    /// One of the modifiers is to be chosen for pixels with the code. Where none of them says how
    /// pixels lie in memory, that is left to the card.
    ChooseModifier { fourcc: u32, modifiers: Vec<u64>, implicit: bool },
    /// Everything is settled: the buffers are set up.
    SetUpBuffers,
}

/// A stream.
#[derive(Debug)]
pub struct StreamData {
    /// Whether there is a graphics card to make buffers with.
    pub dmabuf: bool,
    /// The code of the pixels.
    pub format: u32,
    pub modifier: Option<u64>,
    pub formats: Formats,
    /// Whether it was told that the stream is set up, or that it failed.
    pub node_id_sent: bool,
    pub damage: BufferDamage,
}

/// The graphics card on which buffers are made, given the one that is used otherwise.
pub open spec fn device_of(formats: Formats, main_device: u64) -> u64 {
    match formats.dmabuf_device {
        Some(device) => device,
        None => main_device,
    }
}

/// Whether none of the modifiers says how pixels lie in memory.
pub open spec fn all_implicit(modifiers: Seq<u64>) -> bool {
    forall|i: int| 0 <= i < modifiers.len() ==> (#[trigger] modifiers[i]) == MODIFIER_INVALID
}

/// Whether none of the modifiers says how pixels lie in memory.
fn are_implicit(modifiers: &Vec<u64>) -> (r: bool)
    ensures
        r == all_implicit(modifiers@),
{
    let mut i: usize = 0;
    while i < modifiers.len()
        invariant
            i <= modifiers@.len(),
            forall|j: int| 0 <= j < i ==> (#[trigger] modifiers@[j]) == MODIFIER_INVALID,
        decreases modifiers@.len() - i,
    {
        if modifiers[i] != MODIFIER_INVALID {
            assert(modifiers@[i as int] != MODIFIER_INVALID);
            return false;
        }
        i = i + 1;
    }
    true
}

/// The code of the pixels after the other side has said something.
pub open spec fn format_after(event: ParamEvent, before: u32) -> u32 {
    match event {
        ParamEvent::Format { format: Some(format), .. } => fourcc_of(format),
        _ => before,
    }
}

/// What is to be done after the other side has said something.
pub open spec fn action_after(event: ParamEvent, action: ParamAction) -> bool {
    match event {
        ParamEvent::Other => action == ParamAction::Nothing,
        ParamEvent::Format { format: None, .. } => action == ParamAction::Nothing,
        ParamEvent::Format { format: Some(format), modifier } => match modifier {
            ModifierChoice::Invalid => action == ParamAction::Nothing,
            ModifierChoice::Absent | ModifierChoice::Settled => action
                == ParamAction::SetUpBuffers,
            ModifierChoice::Open(modifiers) => action == (ParamAction::ChooseModifier {
                fourcc: fourcc_of(format),
                modifiers,
                implicit: all_implicit(modifiers@),
            }),
        },
    }
}

impl StreamData {
    /// The pixels are in a format of streams: they are so at first and whatever the other side says.
    pub open spec fn has_stream_format(self) -> bool {
        video_format(self.format) is Some
    }

    /// A stream that nothing is settled of.
    pub fn new(dmabuf: bool, formats: Formats) -> (r: Self)
        ensures
            r.dmabuf == dmabuf,
            r.format == FOURCC_ABGR8888,
            r.has_stream_format(),
            r.modifier is None,
            r.formats == formats,
            !r.node_id_sent,
            r.damage.wf(),
            r.damage@ == Map::<u64, Seq<DamageRect>>::empty(),
    {
        StreamData {
            dmabuf,
            format: FOURCC_ABGR8888,
            modifier: None,
            formats,
            node_id_sent: false,
            damage: BufferDamage::new(),
        }
    }

    /// The graphics card on which modifiers are chosen and buffers are made, given the one that is
    /// used otherwise.
    pub fn device(&self, main_device: u64) -> (r: u64)
        ensures
            r == device_of(self.formats, main_device),
    {
        match self.formats.dmabuf_device {
            Some(device) => device,
            None => main_device,
        }
    }

    /// Takes up what the other side says.
    pub fn param_changed(&mut self, event: ParamEvent) -> (r: ParamAction)
        ensures
            action_after(event, r),
            old(self).has_stream_format() ==> final(self).has_stream_format(),
            *final(self) == (StreamData {
                format: format_after(event, old(self).format),
                ..*old(self)
            }),
    {
        match event {
            ParamEvent::Other => ParamAction::Nothing,
            ParamEvent::Format { format, modifier } => match format {
                None => ParamAction::Nothing,
                Some(format) => {
                    let fourcc: u32 = spa_format_to_gbm(format);
                    self.format = fourcc;
                    match modifier {
                        ModifierChoice::Invalid => ParamAction::Nothing,
                        ModifierChoice::Absent | ModifierChoice::Settled => ParamAction::SetUpBuffers,
                        ModifierChoice::Open(modifiers) => {
                            let implicit = are_implicit(&modifiers);
                            ParamAction::ChooseModifier { fourcc, modifiers, implicit }
                        },
                    }
                },
            },
        }
    }

    /// Takes up the modifier that was chosen, and tells which formats are offered now: the one with
    /// the modifier first. Where none could be chosen, only shared memory is offered.
    pub fn modifier_chosen(&mut self, modifier: Option<u64>) -> (r: Vec<FormatParam>)
        ensures
            match modifier {
                Some(modifier) => {
                    &&& *final(self) == (StreamData { modifier: Some(modifier), ..*old(self) })
                    &&& format_views(r@) == offered(
                        old(self).dmabuf,
                        Some((old(self).format, modifier)),
                        old(self).formats@,
                    )
                },
                None => {
                    &&& *final(self) == *old(self)
                    &&& format_views(r@) == offered(false, None, old(self).formats@)
                },
            },
    {
        match modifier {
            Some(modifier) => {
                self.modifier = Some(modifier);
                format_params(self.dmabuf, Some((self.format, modifier)), &self.formats)
            },
            None => format_params(false, None, &self.formats),
        }
    }

    /// What is said of the buffers when everything is settled: as many blocks as the pixels have
    /// planes, one where that is not known.
    pub fn set_up_buffers(&self, planes: Option<u32>) -> (r: Vec<OtherParam>)
        requires
            self.formats.buffer_size.0 * 4 <= i32::MAX,
            self.formats.buffer_size.1 <= i32::MAX,
            self.formats.buffer_size.0 * self.formats.buffer_size.1 * 4 <= i32::MAX,
        ensures
            r@ == buffer_params(
                self.formats.buffer_size.0,
                self.formats.buffer_size.1,
                match (self.modifier, planes) {
                    (Some(_), Some(planes)) => planes,
                    _ => 1u32,
                },
                self.modifier is Some,
            ),
    {
        let blocks: u32 = match (self.modifier, planes) {
            (Some(_), Some(planes)) => planes,
            _ => 1,
        };
        other_params(
            self.formats.buffer_size.0,
            self.formats.buffer_size.1,
            blocks,
            self.modifier.is_some(),
        )
    }

    /// Takes up other formats, and tells which are offered then; nothing where they are the same.
    pub fn update_formats(&mut self, formats: Formats) -> (r: Option<Vec<FormatParam>>)
        ensures
            if formats@ == old(self).formats@ {
                r is None && *final(self) == *old(self)
            } else {
                &&& *final(self) == (StreamData { formats, ..*old(self) })
                &&& r matches Some(params)
                &&& format_views(params@) == offered(old(self).dmabuf, None, formats@)
            },
    {
        if same_formats(&formats, &self.formats) {
            return None;
        }
        let params = format_params(self.dmabuf, None, &formats);
        self.formats = formats;
        Some(params)
    }

    /// Whether it is to be told that the stream is set up or failed: once.
    pub fn state_changed(&mut self, paused_or_failed: bool) -> (r: bool)
        ensures
            r == (paused_or_failed && !old(self).node_id_sent),
            *final(self) == (StreamData {
                node_id_sent: old(self).node_id_sent || paused_or_failed,
                ..*old(self)
            }),
    {
        let tell = paused_or_failed && !self.node_id_sent;
        if paused_or_failed {
            self.node_id_sent = true;
        }
        tell
    }
}

/// Whether numbers are the same.
fn same_u64(a: &Vec<u64>, b: &Vec<u64>) -> (r: bool)
    ensures
        r == (a@ == b@),
{
    if a.len() != b.len() {
        return false;
    }
    let mut i: usize = 0;
    while i < a.len()
        invariant
            i <= a@.len(),
            a@.len() == b@.len(),
            forall|j: int| 0 <= j < i ==> a@[j] == b@[j],
        decreases a@.len() - i,
    {
        if a[i] != b[i] {
            return false;
        }
        i = i + 1;
    }
    proof {
        assert(a@ =~= b@);
    }
    true
}

/// Whether numbers are the same.
fn same_u32(a: &Vec<u32>, b: &Vec<u32>) -> (r: bool)
    ensures
        r == (a@ == b@),
{
    if a.len() != b.len() {
        return false;
    }
    let mut i: usize = 0;
    while i < a.len()
        invariant
            i <= a@.len(),
            a@.len() == b@.len(),
            forall|j: int| 0 <= j < i ==> a@[j] == b@[j],
        decreases a@.len() - i,
    {
        if a[i] != b[i] {
            return false;
        }
        i = i + 1;
    }
    proof {
        assert(a@ =~= b@);
    }
    true
}

/// Whether formats are the same.
fn same_formats(a: &Formats, b: &Formats) -> (r: bool)
    ensures
        r == (a@ == b@),
{
    let same_device = match (a.dmabuf_device, b.dmabuf_device) {
        (Some(c), Some(d)) => c == d,
        (None, None) => true,
        _ => false,
    };
    if !same_device || a.buffer_size.0 != b.buffer_size.0 || a.buffer_size.1 != b.buffer_size.1
        || !same_u32(&a.shm_formats, &b.shm_formats) || a.dmabuf_formats.len() != b.dmabuf_formats.len() {
        assert(a@.dmabuf_formats.len() == a.dmabuf_formats@.len());
        assert(b@.dmabuf_formats.len() == b.dmabuf_formats@.len());
        return false;
    }
    let mut i: usize = 0;
    while i < a.dmabuf_formats.len()
        invariant
            i <= a.dmabuf_formats@.len(),
            a.dmabuf_formats@.len() == b.dmabuf_formats@.len(),
            forall|j: int|
                0 <= j < i ==> (#[trigger] a@.dmabuf_formats[j]) == b@.dmabuf_formats[j],
        decreases a.dmabuf_formats@.len() - i,
    {
        proof {
            let k = i as int;
            assert(a@.dmabuf_formats[k] == (a.dmabuf_formats@[k].0, a.dmabuf_formats@[k].1@));
            assert(b@.dmabuf_formats[k] == (b.dmabuf_formats@[k].0, b.dmabuf_formats@[k].1@));
        }
        if a.dmabuf_formats[i].0 != b.dmabuf_formats[i].0 || !same_u64(
            &a.dmabuf_formats[i].1,
            &b.dmabuf_formats[i].1,
        ) {
            return false;
        }
        i = i + 1;
    }
    proof {
        assert(a@.dmabuf_formats =~= b@.dmabuf_formats);
    }
    true
}

/// A rectangle of a buffer.
#[derive(Debug, Clone, Copy, PartialEq, Eq, Structural)]
pub struct DamageRect {
    pub x: i32,
    pub y: i32,
    pub width: i32,
    pub height: i32,
}

/// What of each buffer is out of date. A buffer that was not filled yet is not listed.
#[derive(Debug)]
pub struct BufferDamage {
    pub buffers: Vec<(u64, Vec<DamageRect>)>,
}

/// What of each buffer is out of date, by the number of the buffer.
pub open spec fn damage_map(buffers: Seq<(u64, Vec<DamageRect>)>) -> Map<u64, Seq<DamageRect>>
    decreases buffers.len(),
{
    if buffers.len() == 0 {
        Map::empty()
    } else {
        damage_map(buffers.drop_last()).insert(buffers.last().0, buffers.last().1@)
    }
}

/// What of each buffer is out of date after a frame was put into one of them: nothing of that one,
/// and of the others also what changed with the frame.
pub open spec fn after_frame(
    damage: Map<u64, Seq<DamageRect>>,
    buffer: u64,
    changed: Seq<DamageRect>,
) -> Map<u64, Seq<DamageRect>> {
    Map::new(
        |b: u64| damage.dom().contains(b) || b == buffer,
        |b: u64|
            if b == buffer {
                Seq::empty()
            } else {
                damage[b] + changed
            },
    )
}

impl View for BufferDamage {
    type V = Map<u64, Seq<DamageRect>>;

    open spec fn view(&self) -> Map<u64, Seq<DamageRect>> {
        damage_map(self.buffers@)
    }
}

/// A buffer that is listed is found by its number.
proof fn lemma_damage_at(buffers: Seq<(u64, Vec<DamageRect>)>, i: int)
    requires
        0 <= i < buffers.len(),
        forall|a: int, b: int|
            #![trigger buffers[a], buffers[b]]
            0 <= a < b < buffers.len() ==> buffers[a].0 != buffers[b].0,
    ensures
        damage_map(buffers).dom().contains(buffers[i].0),
        damage_map(buffers)[buffers[i].0] == buffers[i].1@,
    decreases buffers.len(),
{
    if i < buffers.len() - 1 {
        let init = buffers.drop_last();
        assert forall|a: int, b: int|
            #![trigger init[a], init[b]]
            0 <= a < b < init.len() implies init[a].0 != init[b].0 by {
            assert(buffers[a].0 != buffers[b].0);
        }
        lemma_damage_at(init, i);
        assert(buffers[i].0 != buffers[buffers.len() - 1].0);
    }
}

/// A buffer that is found is listed.
proof fn lemma_damage_listed(buffers: Seq<(u64, Vec<DamageRect>)>, buffer: u64)
    requires
        damage_map(buffers).dom().contains(buffer),
    ensures
        exists|i: int| 0 <= i < buffers.len() && (#[trigger] buffers[i]).0 == buffer,
    decreases buffers.len(),
{
    if buffers.last().0 == buffer {
        assert(buffers[buffers.len() - 1].0 == buffer);
    } else {
        let init = buffers.drop_last();
        lemma_damage_listed(init, buffer);
        let i = choose|i: int| 0 <= i < init.len() && (#[trigger] init[i]).0 == buffer;
        assert(buffers[i].0 == buffer);
    }
}

/// Copies of rectangles.
fn copy_rects(rects: &Vec<DamageRect>) -> (r: Vec<DamageRect>)
    ensures
        r@ == rects@,
{
    let mut r: Vec<DamageRect> = Vec::new();
    append_rects(&mut r, rects);
    proof {
        assert(r@ =~= rects@);
    }
    r
}

/// Puts rectangles behind others.
fn append_rects(rects: &mut Vec<DamageRect>, more: &Vec<DamageRect>)
    ensures
        final(rects)@ == old(rects)@ + more@,
{
    let ghost before = rects@;
    let mut i: usize = 0;
    proof {
        assert(before + more@.take(0) =~= before);
    }
    while i < more.len()
        invariant
            i <= more@.len(),
            rects@ == before + more@.take(i as int),
        decreases more@.len() - i,
    {
        rects.push(more[i]);
        proof {
            assert(rects@ =~= before + more@.take(i + 1));
        }
        i = i + 1;
    }
    proof {
        assert(more@.take(more@.len() as int) =~= more@);
    }
}

impl BufferDamage {
    /// Each buffer is listed once.
    pub open spec fn wf(self) -> bool {
        forall|a: int, b: int|
            #![trigger self.buffers@[a], self.buffers@[b]]
            0 <= a < b < self.buffers@.len() ==> self.buffers@[a].0 != self.buffers@[b].0
    }

    /// No buffer was filled.
    pub fn new() -> (r: Self)
        ensures
            r.wf(),
            r@ == Map::<u64, Seq<DamageRect>>::empty(),
    {
        BufferDamage { buffers: Vec::new() }
    }

    /// The position of a buffer.
    fn find(&self, buffer: u64) -> (r: Option<usize>)
        requires
            self.wf(),
        ensures
            match r {
                Some(i) => {
                    &&& i < self.buffers@.len()
                    &&& self.buffers@[i as int].0 == buffer
                    &&& self@.dom().contains(buffer)
                    &&& self@[buffer] == self.buffers@[i as int].1@
                },
                None => !self@.dom().contains(buffer) && forall|j: int|
                    0 <= j < self.buffers@.len() ==> (#[trigger] self.buffers@[j]).0 != buffer,
            },
    {
        let mut i: usize = 0;
        while i < self.buffers.len()
            invariant
                i <= self.buffers@.len(),
                self.wf(),
                forall|j: int| 0 <= j < i ==> (#[trigger] self.buffers@[j]).0 != buffer,
            decreases self.buffers@.len() - i,
        {
            if self.buffers[i].0 == buffer {
                proof {
                    lemma_damage_at(self.buffers@, i as int);
                }
                return Some(i);
            }
            i = i + 1;
        }
        proof {
            if self@.dom().contains(buffer) {
                lemma_damage_listed(self.buffers@, buffer);
            }
        }
        None
    }

    /// What of a buffer is to be filled: what is out of date, or all of one that was not filled yet.
    pub fn damage_for(&self, buffer: u64, width: u32, height: u32) -> (r: Vec<DamageRect>)
        requires
            self.wf(),
        ensures
            r@ == if self@.dom().contains(buffer) {
                self@[buffer]
            } else {
                seq![DamageRect { x: 0, y: 0, width: width as i32, height: height as i32 }]
            },
    {
        match self.find(buffer) {
            Some(i) => copy_rects(&self.buffers[i].1),
            None => {
                let mut r: Vec<DamageRect> = Vec::new();
                r.push(DamageRect { x: 0, y: 0, width: width as i32, height: height as i32 });
                proof {
                    assert(r@ =~= seq![
                        DamageRect { x: 0, y: 0, width: width as i32, height: height as i32 },
                    ]);
                }
                r
            },
        }
    }

    /// Takes notice that a frame was put into a buffer, and of what changed with it.
    pub fn on_frame(&mut self, buffer: u64, changed: &Vec<DamageRect>)
        requires
            old(self).wf(),
        ensures
            final(self).wf(),
            final(self)@ == after_frame(old(self)@, buffer, changed@),
    {
        let ghost before = self.buffers@;
        let ghost first = self@;
        let found = self.find(buffer);
        let mut i: usize = 0;
        while i < self.buffers.len()
            invariant
                i <= self.buffers@.len(),
                self.buffers@.len() == before.len(),
                forall|j: int|
                    0 <= j < before.len() ==> (#[trigger] self.buffers@[j]).0 == before[j].0,
                forall|j: int|
                    0 <= j < i ==> (#[trigger] self.buffers@[j]).1@ == if before[j].0 == buffer {
                        Seq::empty()
                    } else {
                        before[j].1@ + changed@
                    },
                forall|j: int|
                    i <= j < before.len() ==> (#[trigger] self.buffers@[j]) == before[j],
            decreases self.buffers@.len() - i,
        {
            let entry = &mut self.buffers[i];
            if entry.0 == buffer {
                entry.1.clear();
            } else {
                append_rects(&mut entry.1, changed);
            }
            i = i + 1;
        }
        let ghost middle = self.buffers@;
        if found.is_none() {
            self.buffers.push((buffer, Vec::new()));
        }
        proof {
            assert forall|a: int, b: int|
                #![trigger self.buffers@[a], self.buffers@[b]]
                0 <= a < b < self.buffers@.len() implies self.buffers@[a].0 != self.buffers@[b].0 by {
                assert(self.buffers@[a].0 == before[a].0);
                if b < before.len() {
                    assert(self.buffers@[b].0 == before[b].0);
                }
            }
            assert(self.wf());
            let wanted = after_frame(first, buffer, changed@);
            assert forall|b: u64| #[trigger] self@.dom().contains(b) <==> wanted.dom().contains(b) by {
                if self@.dom().contains(b) {
                    lemma_damage_listed(self.buffers@, b);
                    let k = choose|k: int|
                        0 <= k < self.buffers@.len() && (#[trigger] self.buffers@[k]).0 == b;
                    if k < before.len() {
                        assert(self.buffers@[k].0 == before[k].0);
                        lemma_damage_at(before, k);
                    }
                }
                if wanted.dom().contains(b) {
                    if first.dom().contains(b) {
                        lemma_damage_listed(before, b);
                        let k = choose|k: int|
                            0 <= k < before.len() && (#[trigger] before[k]).0 == b;
                        assert(self.buffers@[k].0 == b);
                        lemma_damage_at(self.buffers@, k);
                    } else {
                        assert(b == buffer && found is None);
                        lemma_damage_at(self.buffers@, before.len() as int);
                    }
                }
            }
            assert forall|b: u64| self@.dom().contains(b) implies #[trigger] self@[b] == wanted[b] by {
                lemma_damage_listed(self.buffers@, b);
                let k = choose|k: int|
                    0 <= k < self.buffers@.len() && (#[trigger] self.buffers@[k]).0 == b;
                lemma_damage_at(self.buffers@, k);
                if k < before.len() {
                    assert(self.buffers@[k] == middle[k]);
                    assert(middle[k].0 == before[k].0);
                    lemma_damage_at(before, k);
                } else {
                    assert(self.buffers@[k].1@ =~= Seq::empty());
                }
            }
            assert(self@ =~= wanted);
        }
    }

    /// Takes a buffer from the list.
    pub fn remove_buffer(&mut self, buffer: u64)
        requires
            old(self).wf(),
        ensures
            final(self).wf(),
            final(self)@ == old(self)@.remove(buffer),
    {
        let ghost before = self.buffers@;
        let ghost first = self@;
        match self.find(buffer) {
            Some(i) => {
                self.buffers.remove(i);
                proof {
                    assert(self.buffers@ =~= before.remove(i as int));
                    assert forall|a: int, b: int|
                        #![trigger self.buffers@[a], self.buffers@[b]]
                        0 <= a < b < self.buffers@.len() implies self.buffers@[a].0
                            != self.buffers@[b].0 by {
                        let c = if a < i {
                            a
                        } else {
                            a + 1
                        };
                        let d = if b < i {
                            b
                        } else {
                            b + 1
                        };
                        assert(before[c].0 != before[d].0);
                    }
                    assert forall|b: u64| #[trigger]
                        self@.dom().contains(b) <==> first.remove(buffer).dom().contains(b) by {
                        if self@.dom().contains(b) {
                            lemma_damage_listed(self.buffers@, b);
                            let k = choose|k: int|
                                0 <= k < self.buffers@.len() && (#[trigger] self.buffers@[k]).0
                                    == b;
                            let m = if k < i {
                                k
                            } else {
                                k + 1
                            };
                            assert(before[m] == self.buffers@[k]);
                            lemma_damage_at(before, m);
                            assert(before[m].0 != before[i as int].0) by {
                                if m < i {
                                    assert(before[m].0 != before[i as int].0);
                                } else {
                                    assert(before[i as int].0 != before[m].0);
                                }
                            }
                        }
                        if first.remove(buffer).dom().contains(b) {
                            lemma_damage_listed(before, b);
                            let m = choose|m: int|
                                0 <= m < before.len() && (#[trigger] before[m]).0 == b;
                            let k = if m < i {
                                m
                            } else {
                                m - 1
                            };
                            assert(self.buffers@[k] == before[m]);
                            lemma_damage_at(self.buffers@, k);
                        }
                    }
                    assert forall|b: u64| self@.dom().contains(b) implies #[trigger] self@[b]
                        == first.remove(buffer)[b] by {
                        lemma_damage_listed(self.buffers@, b);
                        let k = choose|k: int|
                            0 <= k < self.buffers@.len() && (#[trigger] self.buffers@[k]).0 == b;
                        lemma_damage_at(self.buffers@, k);
                        let m = if k < i {
                            k
                        } else {
                            k + 1
                        };
                        assert(before[m] == self.buffers@[k]);
                        lemma_damage_at(before, m);
                        assert(first.remove(buffer).dom().contains(b));
                    }
                    assert(self@ =~= first.remove(buffer));
                }
            },
            None => {
                proof {
                    assert(first.remove(buffer) =~= first);
                }
            },
        }
    }
}

/// What is out of date of a buffer is everything that changed since it was filled: two frames into
/// other buffers add up, and a frame into it brings it up to date.
pub proof fn law_damage_adds_up(
    damage: Map<u64, Seq<DamageRect>>,
    buffer: u64,
    other: u64,
    first: Seq<DamageRect>,
    second: Seq<DamageRect>,
)
    requires
        damage.dom().contains(buffer),
        other != buffer,
    ensures
        after_frame(after_frame(damage, other, first), other, second)[buffer] == damage[buffer]
            + first + second,
        after_frame(after_frame(damage, buffer, first), other, second)[buffer] == second,
        after_frame(damage, buffer, first)[buffer] == Seq::<DamageRect>::empty(),
{
    assert(Seq::<DamageRect>::empty() + second =~= second);
}

/// The number by which a stream tells how its picture is turned.
pub open spec fn transform_number(transform: Transform) -> u32 {
    match transform {
        Transform::Normal => 0,
        Transform::Rotated90 => 1,
        Transform::Rotated180 => 2,
        Transform::Rotated270 => 3,
        Transform::Flipped => 4,
        Transform::Flipped90 => 5,
        Transform::Flipped180 => 6,
        Transform::Flipped270 => 7,
    }
}

/// The number by which a stream tells how its picture is turned.
pub fn convert_transform(transform: Transform) -> (r: u32)
    ensures
        r == transform_number(transform),
{
    match transform {
        Transform::Normal => 0,
        Transform::Rotated90 => 1,
        Transform::Rotated180 => 2,
        Transform::Rotated270 => 3,
        Transform::Flipped => 4,
        Transform::Flipped90 => 5,
        Transform::Flipped180 => 6,
        Transform::Flipped270 => 7,
    }
}

/// Where a plane of pixels lies in its memory.
#[derive(Debug, Clone, Copy, PartialEq, Eq, Structural)]
pub struct Chunk {
    pub size: u32,
    pub offset: u32,
    pub stride: i32,
}

/// Where a plane of a buffer of the graphics card lies.
pub fn dmabuf_chunk(height: u32, offset: u32, stride: u32) -> (r: Chunk)
    requires
        height * stride <= u32::MAX,
    ensures
        r == (Chunk { size: (height * stride) as u32, offset, stride: stride as i32 }),
{
    Chunk { size: height * stride, offset, stride: stride as i32 }
}

/// Where the pixels of a buffer in shared memory lie: row after row, four bytes each.
pub fn shm_chunk(width: u32, height: u32) -> (r: Chunk)
    requires
        width * height * 4 <= u32::MAX,
        4 * width <= i32::MAX,
    ensures
        r == (Chunk { size: (width * height * 4) as u32, offset: 0, stride: (4 * width) as i32 }),
{
    proof {
        assert(0 <= width * height) by (nonlinear_arith)
            requires
                0 <= width,
                0 <= height,
        ;
    }
    Chunk { size: width * height * 4, offset: 0, stride: 4 * width as i32 }
}

/// Each format of streams has one code, and no other code leads to it. In shared memory pixels with
/// opacity have the number zero and those without the number one; other numbers are codes.
pub proof fn law_formats_go_by_their_codes(fourcc: u32, listed: bool)
    ensures
        video_format(fourcc) == Some(VideoFormat::Rgba) <==> fourcc == 0x3432_4241,
        video_format(fourcc) == Some(VideoFormat::Bgra) <==> fourcc == 0x3432_5241,
        fourcc_of_shm(0, listed) == Some(0x3432_5241u32),
        fourcc_of_shm(1, listed) == Some(0x3432_5258u32),
        fourcc > 1 ==> (fourcc_of_shm(fourcc, listed) is Some <==> listed),
        fourcc_of_shm(fourcc, listed) matches Some(code) ==> fourcc <= 1 || code == fourcc,
        shm_of_fourcc(0x3432_5241) == Some(0u32),
        shm_of_fourcc(0x3432_5258) == Some(1u32),
{
}

/// The number of a transform tells its quarter turns, and four more where the picture is flipped.
pub proof fn law_transforms_go_by_their_turns(transform: Transform)
    ensures
        transform_number(transform) < 8,
        transform_number(transform) >= 4 <==> (transform is Flipped || transform is Flipped90
            || transform is Flipped180 || transform is Flipped270),
        transform_number(transform) % 4 == 0 <==> (transform is Normal || transform is Flipped),
        transform_number(transform) % 4 == 1 <==> (transform is Rotated90 || transform is Flipped90),
        transform_number(transform) % 4 == 2 <==> (transform is Rotated180 || transform is Flipped180),
        transform_number(transform) % 4 == 3 <==> (transform is Rotated270 || transform is Flipped270),
{
}

/// What is offered for shared memory says nothing of modifiers and is as large as the source.
proof fn lemma_shm_params(numbers: Seq<u32>, formats: FormatsView, i: int, k: int)
    ensures
        0 <= i < shm_params(numbers, formats).len() ==> shm_params(numbers, formats)[i].size
            == formats.buffer_size && shm_params(numbers, formats)[i].modifier is Absent,
        0 <= k < numbers.len() && shm_param(numbers[k], formats).len() > 0 ==> shm_params(
            numbers,
            formats,
        ).contains(shm_param(numbers[k], formats)[0]),
    decreases numbers.len(),
{
    if numbers.len() > 0 {
        let init = numbers.drop_last();
        let rest = shm_params(init, formats);
        let all = shm_params(numbers, formats);
        lemma_shm_params(init, formats, i, k);
        if 0 <= k < numbers.len() && shm_param(numbers[k], formats).len() > 0 {
            let param = shm_param(numbers[k], formats)[0];
            if k < init.len() {
                let j = choose|j: int| 0 <= j < rest.len() && rest[j] == param;
                assert(all[j] == param);
            } else {
                assert(all[rest.len() as int] == param);
            }
        }
    }
}

/// What is offered for buffers of the graphics card has modifiers to choose from and is as large as the
/// source.
proof fn lemma_dmabuf_params(codes: Seq<(u32, Seq<u64>)>, formats: FormatsView, i: int, k: int)
    ensures
        0 <= i < dmabuf_params(codes, formats).len() ==> dmabuf_params(codes, formats)[i].size
            == formats.buffer_size && dmabuf_params(codes, formats)[i].modifier is Choice,
        0 <= k < codes.len() && format_for(true, codes[k].0, None, formats).len() > 0
            ==> dmabuf_params(codes, formats).contains(
            format_for(true, codes[k].0, None, formats)[0],
        ),
    decreases codes.len(),
{
    if codes.len() > 0 {
        let init = codes.drop_last();
        let rest = dmabuf_params(init, formats);
        let all = dmabuf_params(codes, formats);
        lemma_dmabuf_params(init, formats, i, k);
        if 0 <= k < codes.len() && format_for(true, codes[k].0, None, formats).len() > 0 {
            let param = format_for(true, codes[k].0, None, formats)[0];
            if k < init.len() {
                let j = choose|j: int| 0 <= j < rest.len() && rest[j] == param;
                assert(all[j] == param);
            } else {
                assert(all[rest.len() as int] == param);
            }
        }
    }
}

/// Every format that is offered is as large as the source. What was settled on stands first, with its
/// modifier; without a graphics card no format has modifiers to choose from.
pub proof fn law_settled_format_is_offered_first(
    dmabuf: bool,
    fixated: Option<(u32, u64)>,
    formats: FormatsView,
    i: int,
)
    ensures
        ({
            let params = offered(dmabuf, fixated, formats);
            &&& 0 <= i < params.len() ==> params[i].size == formats.buffer_size
            &&& fixated matches Some((fourcc, modifier)) ==> (fourcc == 0x3432_4241 ==> {
                &&& params.len() > 0
                &&& params[0].format is Rgba
                &&& params[0].modifier == ModifierView::Fixed(modifier)
            })
            &&& fixated matches Some((fourcc, modifier)) ==> (fourcc == 0x3432_5241 ==> {
                &&& params.len() > 0
                &&& params[0].format is Bgra
                &&& params[0].modifier == ModifierView::Fixed(modifier)
            })
            &&& fixated is None && 0 <= i < params.len() ==> params[i].modifier !is Fixed
            &&& !dmabuf && 0 <= i < params.len() ==> params[i].modifier !is Choice
        }),
{
    let first = match fixated {
        Some((fourcc, modifier)) => format_for(false, fourcc, Some(modifier), formats),
        None => Seq::empty(),
    };
    let cards = if dmabuf {
        dmabuf_params(formats.dmabuf_formats, formats)
    } else {
        Seq::empty()
    };
    let j = i - first.len();
    lemma_dmabuf_params(formats.dmabuf_formats, formats, j, 0);
    lemma_shm_params(formats.shm_formats, formats, j - cards.len(), 0);
}

/// Shared memory of both kinds is offered wherever the source has it, with or without a graphics card;
/// and with one, each format of streams that has a modifier to choose.
pub proof fn law_all_usable_formats_are_offered(
    dmabuf: bool,
    fixated: Option<(u32, u64)>,
    formats: FormatsView,
    k: int,
)
    ensures
        0 <= k < formats.shm_formats.len() && formats.shm_formats[k] == 0 ==> offered(
            dmabuf,
            fixated,
            formats,
        ).contains(
            FormatView {
                format: VideoFormat::Bgra,
                size: formats.buffer_size,
                modifier: ModifierView::Absent,
            },
        ),
        0 <= k < formats.shm_formats.len() && formats.shm_formats[k] == 0x3432_4241 ==> offered(
            dmabuf,
            fixated,
            formats,
        ).contains(
            FormatView {
                format: VideoFormat::Rgba,
                size: formats.buffer_size,
                modifier: ModifierView::Absent,
            },
        ),
        dmabuf && 0 <= k < formats.dmabuf_formats.len() && formats.dmabuf_formats[k].0 == 0x3432_4241
            && explicit(modifiers_of(formats.dmabuf_formats, 0x3432_4241)).len() > 0 ==> offered(
            dmabuf,
            fixated,
            formats,
        ).contains(
            FormatView {
                format: VideoFormat::Rgba,
                size: formats.buffer_size,
                modifier: ModifierView::Choice(
                    explicit(modifiers_of(formats.dmabuf_formats, 0x3432_4241)),
                ),
            },
        ),
{
    let first = match fixated {
        Some((fourcc, modifier)) => format_for(false, fourcc, Some(modifier), formats),
        None => Seq::empty(),
    };
    let cards = if dmabuf {
        dmabuf_params(formats.dmabuf_formats, formats)
    } else {
        Seq::empty()
    };
    let memory = shm_params(formats.shm_formats, formats);
    let all = offered(dmabuf, fixated, formats);
    lemma_dmabuf_params(formats.dmabuf_formats, formats, 0, k);
    lemma_shm_params(formats.shm_formats, formats, 0, k);
    assert forall|param: FormatView| #[trigger] memory.contains(param) implies all.contains(param) by {
        let j = choose|j: int| 0 <= j < memory.len() && memory[j] == param;
        assert(all[first.len() + cards.len() + j] == param);
    }
    assert forall|param: FormatView| #[trigger] cards.contains(param) implies all.contains(param) by {
        let j = choose|j: int| 0 <= j < cards.len() && cards[j] == param;
        assert(all[first.len() + j] == param);
    }
}

/// The modifiers of a code are those of the first entry for it, and none where there is no entry.
pub proof fn law_modifiers_are_of_the_code(formats: Seq<(u32, Seq<u64>)>, fourcc: u32, k: int)
    ensures
        0 <= k < formats.len() && formats[k].0 == fourcc && (forall|i: int|
            0 <= i < k ==> (#[trigger] formats[i]).0 != fourcc) ==> modifiers_of(formats, fourcc)
            == formats[k].1,
        (forall|i: int| 0 <= i < formats.len() ==> (#[trigger] formats[i]).0 != fourcc)
            ==> modifiers_of(formats, fourcc).len() == 0,
    decreases formats.len(),
{
    if formats.len() > 0 && formats[0].0 != fourcc {
        let rest = formats.skip(1);
        law_modifiers_are_of_the_code(rest, fourcc, k - 1);
        if forall|i: int| 0 <= i < k ==> (#[trigger] formats[i]).0 != fourcc {
            assert forall|i: int| 0 <= i < k - 1 && i < rest.len() implies (#[trigger] rest[i]).0
                != fourcc by {
                assert(rest[i] == formats[i + 1]);
            }
        }
        if forall|i: int| 0 <= i < formats.len() ==> (#[trigger] formats[i]).0 != fourcc {
            assert forall|i: int| 0 <= i < rest.len() implies (#[trigger] rest[i]).0 != fourcc by {
                assert(rest[i] == formats[i + 1]);
            }
        }
    }
}

/// A line of a buffer has four bytes for each pixel, and the buffer has room for all lines; the pointer
/// has room for a picture of sixty-four by sixty-four pixels behind its heads.
pub proof fn law_buffers_hold_a_frame(width: u32, height: u32, blocks: u32, allow_dmabuf: bool)
    requires
        width * 4 <= i32::MAX,
        width * height * 4 <= i32::MAX,
    ensures
        ({
            let params = buffer_params(width, height, blocks, allow_dmabuf);
            &&& params.len() == 3
            &&& params[0] matches OtherParam::Buffers(buffers) && {
                &&& buffers.allow_dmabuf == allow_dmabuf
                &&& buffers.stride == 4 * width
                &&& buffers.size == 4 * (width * height)
                &&& blocks <= i32::MAX ==> buffers.blocks == blocks
                &&& buffers.align == 16
                &&& buffers.min_count == 1 && buffers.default_count == 4 && buffers.max_count == 32
            }
            &&& params[1] is VideoTransform
            &&& params[2] matches OtherParam::Cursor { size } && size == CURSOR_HEAD_BYTES
                + BITMAP_HEAD_BYTES + 16384
        }),
{
    assert(0 <= width * height) by (nonlinear_arith);
}

/// The pixels are those of the format that the other side names, and stay as they are where it names none.
/// Buffers are set up exactly where nothing of the format is open; where modifiers are open, it is among
/// them that one is chosen.
pub proof fn law_named_format_is_taken_up(
    event: ParamEvent,
    before: u32,
    action: ParamAction,
)
    requires
        action_after(event, action),
    ensures
        event matches ParamEvent::Format { format: Some(format), modifier } ==> {
            &&& format is Rgba ==> format_after(event, before) == 0x3432_4241
            &&& format is Bgra ==> format_after(event, before) == 0x3432_5241
            &&& action is SetUpBuffers <==> modifier is Absent || modifier is Settled
            &&& action is Nothing <==> modifier is Invalid
            &&& modifier matches ModifierChoice::Open(modifiers) ==> (
            action matches ParamAction::ChooseModifier { fourcc, modifiers: among, implicit } && {
                &&& fourcc == format_after(event, before)
                &&& among@ == modifiers@
                &&& implicit <==> (forall|i: int|
                    0 <= i < modifiers@.len() ==> (#[trigger] modifiers@[i])
                        == 0x00ff_ffff_ffff_ffff)
            })
        },
        event is Other || event->format is None ==> format_after(event, before) == before
            && action is Nothing,
{
}

/// Modifiers and buffers belong to the graphics card of the source where it names one, and otherwise to
/// the usual one.
pub proof fn law_named_card_is_used(formats: Formats, main_device: u64, device: u64)
    ensures
        formats.dmabuf_device == Some(device) ==> device_of(formats, main_device) == device,
        formats.dmabuf_device is None ==> device_of(formats, main_device) == main_device,
{
}

} // verus!
