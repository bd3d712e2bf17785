//! Memory of graphics devices.

use crate::screencast::thread::{FOURCC_ABGR8888, MODIFIER_INVALID};
use crate::screenshot::picture::{byte_len, png_file, write_png, Picture};
use std::collections::HashMap;
use vstd::prelude::*;

verus! {

/// A format that a device can use.
#[derive(Debug, Clone, Copy, PartialEq, Eq, Structural)]
pub struct DmabufFormat {
    pub format: u32,
    pub modifier: u64,
}

/// What the compositor tells of devices and formats.
#[derive(Debug)]
pub struct DmabufFeedback {
    /// The number of the main device.
    pub main_device: u64,
    /// The formats of each tranche, as places in the table.
    pub tranches: Vec<Vec<u16>>,
    pub format_table: Vec<DmabufFormat>,
}

/// The formats at places of a table; places beyond it are left out.
pub open spec fn formats_at(table: Seq<DmabufFormat>, places: Seq<u16>) -> Seq<DmabufFormat>
    decreases places.len(),
{
    if places.len() == 0 {
        Seq::empty()
    } else {
        let before = formats_at(table, places.drop_last());
        let place = places.last() as int;
        if place < table.len() {
            before.push(table[place])
        } else {
            before
        }
    }
}

/// The formats of all tranches, one after the other.
pub open spec fn formats_of(table: Seq<DmabufFormat>, tranches: Seq<Vec<u16>>) -> Seq<DmabufFormat>
    decreases tranches.len(),
{
    if tranches.len() == 0 {
        Seq::empty()
    } else {
        formats_of(table, tranches.drop_last()) + formats_at(table, tranches.last()@)
    }
}

/// The modifiers of those formats that are the given one.
pub open spec fn modifiers_of(formats: Seq<DmabufFormat>, format: u32) -> Seq<u64>
    decreases formats.len(),
{
    if formats.len() == 0 {
        Seq::empty()
    } else {
        let before = modifiers_of(formats.drop_last(), format);
        if formats.last().format == format {
            before.push(formats.last().modifier)
        } else {
            before
        }
    }
}

/// A device, and what the compositor tells of it.
#[derive(Debug)]
pub struct DmabufHelper {
    pub feedback: DmabufFeedback,
    /// The device that is open.
    pub gbm: u64,
}

impl DmabufHelper {
    /// The formats of all tranches, one after the other.
    pub fn feedback_formats(&self) -> (r: Vec<DmabufFormat>)
        ensures
            r@ == formats_of(self.feedback.format_table@, self.feedback.tranches@),
    {
        let ghost table = self.feedback.format_table@;
        let ghost all = self.feedback.tranches@;
        let mut r: Vec<DmabufFormat> = Vec::new();
        let mut i: usize = 0;
        while i < self.feedback.tranches.len()
            invariant
                i <= all.len(),
                all == self.feedback.tranches@,
                table == self.feedback.format_table@,
                r@ == formats_of(table, all.take(i as int)),
            decreases all.len() - i,
        {
            let places = &self.feedback.tranches[i];
            let ghost before = r@;
            let mut j: usize = 0;
            proof {
                assert(before + formats_at(table, places@.take(0)) =~= before);
            }
            while j < places.len()
                invariant
                    j <= places@.len(),
                    table == self.feedback.format_table@,
                    r@ == before + formats_at(table, places@.take(j as int)),
                decreases places@.len() - j,
            {
                let place: usize = places[j] as usize;
                proof {
                    assert(places@.take(j + 1).drop_last() =~= places@.take(j as int));
                    assert(places@.take(j + 1).last() == places@[j as int]);
                }
                if place < self.feedback.format_table.len() {
                    r.push(self.feedback.format_table[place]);
                }
                proof {
                    assert(r@ =~= before + formats_at(table, places@.take(j + 1)));
                }
                j = j + 1;
            }
            proof {
                assert(places@.take(places@.len() as int) =~= places@);
                assert(all.take(i + 1).drop_last() =~= all.take(i as int));
                assert(all.take(i + 1).last() == all[i as int]);
            }
            i = i + 1;
        }
        proof {
            assert(all.take(all.len() as int) =~= all);
        }
        r
    }

    /// The modifiers with which a format can be used.
    pub fn modifiers_for_format(&self, format: u32) -> (r: Vec<u64>)
        ensures
            r@ == modifiers_of(
                formats_of(self.feedback.format_table@, self.feedback.tranches@),
                format,
            ),
    {
        let formats = self.feedback_formats();
        let mut r: Vec<u64> = Vec::new();
        let mut i: usize = 0;
        while i < formats.len()
            invariant
                i <= formats@.len(),
                r@ == modifiers_of(formats@.take(i as int), format),
            decreases formats@.len() - i,
        {
            proof {
                assert(formats@.take(i + 1).drop_last() =~= formats@.take(i as int));
                assert(formats@.take(i + 1).last() == formats@[i as int]);
            }
            if formats[i].format == format {
                r.push(formats[i].modifier);
            }
            i = i + 1;
        }
        proof {
            assert(formats@.take(formats@.len() as int) =~= formats@);
        }
        r
    }
}

/// A modifier is offered for a format exactly where some tranche has the format with it.
pub proof fn law_modifiers_are_those_of_the_format(
    formats: Seq<DmabufFormat>,
    format: u32,
    modifier: u64,
)
    ensures
        modifiers_of(formats, format).contains(modifier) <==> formats.contains(
            DmabufFormat { format, modifier },
        ),
    decreases formats.len(),
{
    let wanted = DmabufFormat { format, modifier };
    if formats.len() > 0 {
        let rest = formats.drop_last();
        law_modifiers_are_those_of_the_format(rest, format, modifier);
        let before = modifiers_of(rest, format);
        let all = modifiers_of(formats, format);
        if all.contains(modifier) {
            let i = choose|i: int| 0 <= i < all.len() && all[i] == modifier;
            if i < before.len() {
                assert(before[i] == modifier);
                assert(before.contains(modifier));
                let j = choose|j: int| 0 <= j < rest.len() && rest[j] == wanted;
                assert(formats[j] == wanted);
            } else {
                assert(formats[formats.len() - 1] == wanted);
            }
        }
        if formats.contains(wanted) {
            let j = choose|j: int| 0 <= j < formats.len() && formats[j] == wanted;
            if j < rest.len() {
                assert(rest[j] == wanted);
                assert(rest.contains(wanted));
                let i = choose|i: int| 0 <= i < before.len() && before[i] == modifier;
                assert(all[i] == modifier);
            } else {
                assert(all[all.len() - 1] == modifier);
            }
        }
    }
}

/// The device that has to be opened when the compositor tells of devices: the main one, unless it is
/// open already.
pub fn device_to_open(helper: &Option<DmabufHelper>, feedback: &DmabufFeedback) -> (r: Option<u64>)
    ensures
        r == match helper {
            Some(helper) => if helper.feedback.main_device == feedback.main_device {
                None
            } else {
                Some(feedback.main_device)
            },
            None => Some(feedback.main_device),
        },
{
    match helper {
        Some(helper) => if helper.feedback.main_device == feedback.main_device {
            None
        } else {
            Some(feedback.main_device)
        },
        None => Some(feedback.main_device),
    }
}

/// Takes notice of what the compositor tells of devices. The device stays the same where the main
/// device does; else it is the one that was opened, and there is none where that failed.
pub fn dmabuf_feedback(
    helper: &mut Option<DmabufHelper>,
    feedback: DmabufFeedback,
    opened: Option<u64>,
)
    ensures
        match *old(helper) {
            Some(before) if before.feedback.main_device == feedback.main_device => *final(helper)
                == Some(DmabufHelper { feedback, gbm: before.gbm }),
            _ => *final(helper) == match opened {
                Some(gbm) => Some(DmabufHelper { feedback, gbm }),
                None => None,
            },
        },
{
    let gbm = match helper.take() {
        Some(before) => if before.feedback.main_device == feedback.main_device {
            Some(before.gbm)
        } else {
            opened
        },
        None => opened,
    };
    *helper = match gbm {
        Some(gbm) => Some(DmabufHelper { feedback, gbm }),
        None => None,
    };
}

/// A device node: its path and the number of the device.
#[derive(Debug)]
pub struct DeviceNode {
    pub path: String,
    pub rdev: u64,
}

/// The first node of a device.
pub open spec fn first_node(nodes: Seq<DeviceNode>, dev: u64) -> Option<DeviceNode>
    decreases nodes.len(),
{
    if nodes.len() == 0 {
        None
    } else if nodes[0].rdev == dev {
        Some(nodes[0])
    } else {
        first_node(nodes.skip(1), dev)
    }
}

/// The first node of a device.
pub fn find_gbm_device(nodes: &Vec<DeviceNode>, dev: u64) -> (r: Option<&DeviceNode>)
    ensures
        match r {
            Some(node) => first_node(nodes@, dev) == Some(*node),
            None => first_node(nodes@, dev) is None,
        },
{
    let mut i: usize = 0;
    proof {
        assert(nodes@.skip(0) =~= nodes@);
    }
    while i < nodes.len()
        invariant
            i <= nodes@.len(),
            first_node(nodes@, dev) == first_node(nodes@.skip(i as int), dev),
        decreases nodes@.len() - i,
    {
        proof {
            assert(nodes@.skip(i as int)[0] == nodes@[i as int]);
            assert(nodes@.skip(i as int).skip(1) =~= nodes@.skip(i + 1));
        }
        if nodes[i].rdev == dev {
            return Some(&nodes[i]);
        }
        i = i + 1;
    }
    None
}

/// A device that is open.
#[derive(Debug)]
pub struct GbmDevice {
    pub path: String,
    pub gbm: u64,
}

/// The devices that are open.
#[derive(Debug)]
pub struct GbmDevices {
    pub devices: HashMap<u64, GbmDevice>,
}

impl Default for GbmDevices {
    /// No device is open.
    fn default() -> (r: Self)
        ensures
            r.devices@ == Map::<u64, GbmDevice>::empty(),
    {
        GbmDevices { devices: HashMap::new() }
    }
}

impl GbmDevices {
    /// A device that is open. One that is not has to be looked for and opened.
    pub fn open_device(&self, dev: u64) -> (r: Option<&GbmDevice>)
        ensures
            match r {
                Some(device) => self.devices@.dom().contains(dev) && *device == self.devices@[dev],
                None => !self.devices@.dom().contains(dev),
            },
    {
        self.devices.get(&dev)
    }

    /// Takes notice of what came of looking for a device that was not open: it is kept where it was
    /// found.
    pub fn gbm_device(&mut self, dev: u64, found: Option<GbmDevice>)
        requires
            !old(self).devices@.dom().contains(dev),
        ensures
            final(self).devices@ == match found {
                Some(device) => old(self).devices@.insert(dev, device),
                None => old(self).devices@,
            },
    {
        if let Some(device) = found {
            self.devices.insert(dev, device);
        }
    }
}

/// A part of a buffer.
#[derive(Debug, Clone, Copy, PartialEq, Eq, Structural)]
pub struct Plane {
    pub fd: u64,
    pub offset: u32,
    pub stride: u32,
}

/// A buffer in the memory of a device.
#[derive(Debug)]
pub struct Dmabuf {
    pub format: u32,
    pub modifier: u64,
    pub width: u32,
    pub height: u32,
    pub planes: Vec<Plane>,
}

/// How a buffer is made.
#[derive(Debug, Clone, Copy, PartialEq, Eq, Structural)]
pub struct Allocation {
    pub format: u32,
    pub width: u32,
    pub height: u32,
    /// The modifier, if it is a certain one.
    pub modifier: Option<u64>,
}

/// How a buffer for a picture is made: with the modifier, unless that is no certain one.
pub fn plan_dmabuf(modifier: u64, width: u32, height: u32) -> (r: Allocation)
    ensures
        r == (Allocation {
            format: FOURCC_ABGR8888,
            width,
            height,
            modifier: if modifier == MODIFIER_INVALID {
                None
            } else {
                Some(modifier)
            },
        }),
{
    let modifier = if modifier == MODIFIER_INVALID {
        None
    } else {
        Some(modifier)
    };
    Allocation { format: FOURCC_ABGR8888, width, height, modifier }
}

/// The buffer that was made, with its planes.
pub fn create_dmabuf(modifier: u64, width: u32, height: u32, planes: Vec<Plane>) -> (r: Dmabuf)
    ensures
        r == (Dmabuf { format: FOURCC_ABGR8888, modifier, width, height, planes }),
{
    Dmabuf { format: FOURCC_ABGR8888, modifier, width, height, planes }
}

/// A plane as the compositor is told of it.
#[derive(Debug, Clone, Copy, PartialEq, Eq, Structural)]
pub struct PlaneParams {
    pub fd: u64,
    pub index: u32,
    pub offset: u32,
    pub stride: u32,
    pub modifier_hi: u32,
    pub modifier_lo: u32,
}

/// The upper and the lower half of a modifier.
pub fn modifier_halves(modifier: u64) -> (r: (u32, u32))
    ensures
        r.0 * 0x1_0000_0000 + r.1 == modifier,
{
    let hi: u32 = (modifier >> 32) as u32;
    let lo: u32 = (modifier & 0xffff_ffff) as u32;
    proof {
        let high = (modifier >> 32) as u32;
        let low = (modifier & 0xffff_ffff) as u32;
        assert((high as u64) * 0x1_0000_0000 + (low as u64) == modifier) by (bit_vector)
            requires
                high == (modifier >> 32) as u32,
                low == (modifier & 0xffff_ffff) as u32,
        ;
    }
    (hi, lo)
}

/// The planes of a buffer as the compositor is told of them: each with its place and both halves of
/// the modifier.
pub fn create_dmabuf_buffer(dmabuf: &Dmabuf) -> (r: Vec<PlaneParams>)
    requires
        dmabuf.planes@.len() <= u32::MAX,
    ensures
        r@.len() == dmabuf.planes@.len(),
        forall|i: int|
            0 <= i < r@.len() ==> {
                &&& (#[trigger] r@[i]).fd == dmabuf.planes@[i].fd
                &&& r@[i].index == i
                &&& r@[i].offset == dmabuf.planes@[i].offset
                &&& r@[i].stride == dmabuf.planes@[i].stride
                &&& r@[i].modifier_hi * 0x1_0000_0000 + r@[i].modifier_lo == dmabuf.modifier
            },
{
    let (modifier_hi, modifier_lo) = modifier_halves(dmabuf.modifier);
    let mut r: Vec<PlaneParams> = Vec::new();
    let mut i: usize = 0;
    while i < dmabuf.planes.len()
        invariant
            i <= dmabuf.planes@.len() <= u32::MAX,
            r@.len() == i,
            modifier_hi * 0x1_0000_0000 + modifier_lo == dmabuf.modifier,
            forall|j: int|
                0 <= j < i ==> {
                    &&& (#[trigger] r@[j]).fd == dmabuf.planes@[j].fd
                    &&& r@[j].index == j
                    &&& r@[j].offset == dmabuf.planes@[j].offset
                    &&& r@[j].stride == dmabuf.planes@[j].stride
                    &&& r@[j].modifier_hi == modifier_hi
                    &&& r@[j].modifier_lo == modifier_lo
                },
        decreases dmabuf.planes@.len() - i,
    {
        let plane = dmabuf.planes[i];
        r.push(
            PlaneParams {
                fd: plane.fd,
                index: i as u32,
                offset: plane.offset,
                stride: plane.stride,
                modifier_hi,
                modifier_lo,
            },
        );
        i = i + 1;
    }
    r
}

/// A part of a frame.
#[derive(Debug, Clone, Copy, PartialEq, Eq, Structural)]
pub struct Object {
    pub fd: i32,
    pub index: u32,
    pub offset: u32,
    pub stride: u32,
    pub plane_index: u32,
}

/// A frame in the memory of a device.
#[derive(Debug)]
pub struct DmabufFrame {
    pub node: Option<u64>,
    pub width: u32,
    pub height: u32,
    pub objects: Vec<Object>,
    pub modifier: Option<u64>,
    pub format: Option<u32>,
    pub flags: Option<u32>,
    pub ready: bool,
}

impl Default for DmabufFrame {
    /// A frame of which nothing is known.
    fn default() -> (r: Self)
        ensures
            r.node is None,
            r.width == 0,
            r.height == 0,
            r.objects@ == Seq::<Object>::empty(),
            r.modifier is None,
            r.format is None,
            r.flags is None,
            !r.ready,
    {
        DmabufFrame {
            node: None,
            width: 0,
            height: 0,
            objects: Vec::new(),
            modifier: None,
            format: None,
            flags: None,
            ready: false,
        }
    }
}

impl DmabufFrame {
    /// The frame as a PNG file, given the pixels that were read from the device. There is none for a
    /// frame without pixels, nor where there are more or fewer bytes than the pixels take.
    pub fn write_to_png(&self, data: Vec<u8>) -> (r: Option<Vec<u8>>)
        ensures
            match r {
                Some(bytes) => {
                    &&& data@.len() == byte_len(self.width as int, self.height as int)
                    &&& png_file(self.width, self.height, data@) == Some(bytes@)
                },
                None => {
                    ||| data@.len() != byte_len(self.width as int, self.height as int)
                    ||| png_file(self.width, self.height, data@) is None
                },
            },
    {
        proof {
            assert(0 <= self.width * self.height <= 0xffff_ffff * 0xffff_ffff) by (nonlinear_arith)
                requires
                    0 <= self.width <= 0xffff_ffff,
                    0 <= self.height <= 0xffff_ffff,
            ;
        }
        let n: u128 = 4 * (self.width as u128 * self.height as u128);
        if data.len() as u128 != n {
            return None;
        }
        write_png(&Picture { width: self.width, height: self.height, data })
    }
}

/// The formats of a tranche are those of the table at its places; places beyond the table tell nothing.
pub proof fn law_places_lead_to_formats(
    table: Seq<DmabufFormat>,
    places: Seq<u16>,
    format: DmabufFormat,
)
    ensures
        formats_at(table, places).contains(format) <==> exists|i: int|
            0 <= i < places.len() && (#[trigger] places[i]) < table.len() && table[places[i] as int]
                == format,
    decreases places.len(),
{
    if places.len() > 0 {
        let rest = places.drop_last();
        let (all, before) = (formats_at(table, places), formats_at(table, rest));
        law_places_lead_to_formats(table, rest, format);
        if all.contains(format) {
            let k = choose|k: int| 0 <= k < all.len() && all[k] == format;
            if k < before.len() {
                assert(before[k] == format);
                let i = choose|i: int|
                    0 <= i < rest.len() && (#[trigger] rest[i]) < table.len() && table[rest[i] as int]
                        == format;
                assert(places[i] == rest[i]);
            } else {
                assert(places[places.len() - 1] < table.len());
            }
        }
        if exists|i: int|
            0 <= i < places.len() && (#[trigger] places[i]) < table.len() && table[places[i] as int]
                == format {
            let i = choose|i: int|
                0 <= i < places.len() && (#[trigger] places[i]) < table.len() && table[places[i] as int]
                    == format;
            if i < rest.len() {
                assert(rest[i] == places[i]);
                let k = choose|k: int| 0 <= k < before.len() && before[k] == format;
                assert(all[k] == format);
            } else {
                assert(all.last() == format);
            }
        }
    }
}

/// A format of any tranche is a format of all of them together.
pub proof fn law_all_tranches_count(
    table: Seq<DmabufFormat>,
    tranches: Seq<Vec<u16>>,
    t: int,
    format: DmabufFormat,
)
    requires
        0 <= t < tranches.len(),
        formats_at(table, tranches[t]@).contains(format),
    ensures
        formats_of(table, tranches).contains(format),
    decreases tranches.len(),
{
    let rest = formats_of(table, tranches.drop_last());
    let all = formats_of(table, tranches);
    if t < tranches.len() - 1 {
        law_all_tranches_count(table, tranches.drop_last(), t, format);
        let k = choose|k: int| 0 <= k < rest.len() && rest[k] == format;
        assert(all[k] == format);
    } else {
        let last = formats_at(table, tranches[t]@);
        let k = choose|k: int| 0 <= k < last.len() && last[k] == format;
        assert(all[rest.len() + k] == format);
    }
}

/// The node of a device is the first one with its number, and there is none where no node has it.
pub proof fn law_node_is_found_by_its_device(nodes: Seq<DeviceNode>, dev: u64, k: int)
    ensures
        0 <= k < nodes.len() && nodes[k].rdev == dev && (forall|i: int|
            0 <= i < k ==> (#[trigger] nodes[i]).rdev != dev) ==> first_node(nodes, dev) == Some(
            nodes[k],
        ),
        (forall|i: int| 0 <= i < nodes.len() ==> (#[trigger] nodes[i]).rdev != dev) ==> first_node(
            nodes,
            dev,
        ) is None,
    decreases nodes.len(),
{
    if nodes.len() > 0 && nodes[0].rdev != dev {
        let rest = nodes.skip(1);
        law_node_is_found_by_its_device(rest, dev, k - 1);
        if forall|i: int| 0 <= i < k ==> (#[trigger] nodes[i]).rdev != dev {
            assert forall|i: int| 0 <= i < k - 1 && i < rest.len() implies (#[trigger] rest[i]).rdev
                != dev by {
                assert(rest[i] == nodes[i + 1]);
            }
        }
        if forall|i: int| 0 <= i < nodes.len() ==> (#[trigger] nodes[i]).rdev != dev {
            assert forall|i: int| 0 <= i < rest.len() implies (#[trigger] rest[i]).rdev != dev by {
                assert(rest[i] == nodes[i + 1]);
            }
        }
    }
}

} // verus!
