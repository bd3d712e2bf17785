//! Frames as they arrive from the outputs and windows, until the time is up.

use crate::dict::Dict;
use crate::screenshot::capture::{
    output_views, picture_views, pictures_wf, placeholder_picture, pointer_view, Output, OutputView,
    PointerSnapshot, PointerView,
};
use crate::screenshot::geometry::{logical_pointer_position, logical_position};
use crate::screenshot::picture::{placeholder, Picture, PictureView};
use vstd::prelude::*;

verus! {

/// How many milliseconds the outputs have to hand in their frames.
pub const OUTPUT_CAPTURE_DEADLINE_MILLIS: u64 = 500;

/// How many milliseconds the windows have to hand in their frames.
pub const TOPLEVEL_CAPTURE_DEADLINE_MILLIS: u64 = 750;

/// How many outputs are captured at the same time.
pub const OUTPUT_CAPTURE_CONCURRENCY: usize = 4;

/// How many windows are captured at the same time.
pub const TOPLEVEL_CAPTURE_CONCURRENCY: usize = 8;

/// What an output says of the pointer.
#[derive(Debug, Clone, Copy, PartialEq, Eq)]
pub struct Cursor {
    /// Whether the pointer is on the output.
    pub entered: bool,
    /// Where the pointer is in the buffer of the output.
    pub position: (i32, i32),
}

/// The first output with a number.
pub open spec fn output_with_id(outputs: Seq<OutputView>, id: u64) -> Option<OutputView>
    decreases outputs.len(),
{
    if outputs.len() == 0 {
        None
    } else if outputs[0].id == id {
        Some(outputs[0])
    } else {
        output_with_id(outputs.skip(1), id)
    }
}

/// The position of the pointer on an output whose buffer has a size.
pub open spec fn pointer_on(
    output: OutputView,
    cursor: Option<Cursor>,
    buffer: (u32, u32),
) -> Option<PointerView> {
    match cursor {
        Some(cursor) => if cursor.entered {
            match logical_position(cursor.position, buffer, output.logical_size) {
                Some(position) => Some(PointerView { output: output.name, position }),
                None => None,
            }
        } else {
            None
        },
        None => None,
    }
}

/// The position of the pointer on the first output that can tell it.
pub open spec fn first_pointer(
    outputs: Seq<OutputView>,
    cursors: Seq<Option<Cursor>>,
    buffers: Seq<Option<(u32, u32)>>,
) -> Option<PointerView>
    decreases outputs.len(),
{
    if outputs.len() == 0 {
        None
    } else {
        let first = match buffers[0] {
            Some(buffer) => pointer_on(outputs[0], cursors[0], buffer),
            None => None,
        };
        match first {
            Some(pointer) => Some(pointer),
            None => first_pointer(outputs.skip(1), cursors.skip(1), buffers.skip(1)),
        }
    }
}

/// A number without sign; one where it has one.
pub open spec fn positive_or_one(n: i32) -> u32 {
    if n >= 0 {
        n as u32
    } else {
        1
    }
}

/// The pictures, with a placeholder for each output that has none.
pub open spec fn with_placeholders(
    images: Map<Seq<char>, PictureView>,
    outputs: Seq<OutputView>,
) -> Map<Seq<char>, PictureView>
    decreases outputs.len(),
{
    if outputs.len() == 0 {
        images
    } else {
        let rest = with_placeholders(images, outputs.drop_last());
        let output = outputs.last();
        if rest.dom().contains(output.name) {
            rest
        } else {
            rest.insert(
                output.name,
                placeholder_picture(
                    (
                        positive_or_one(output.logical_size.0),
                        positive_or_one(output.logical_size.1),
                    ),
                ),
            )
        }
    }
}

/// A number without sign; one where it has one.
fn size_or_one(n: i32) -> (r: u32)
    ensures
        r == positive_or_one(n),
{
    if n >= 0 {
        n as u32
    } else {
        1
    }
}

/// The position of the pointer on an output.
fn find_pointer(output: &Output, cursor: Option<Cursor>, buffer: (u32, u32)) -> (r: Option<
    PointerSnapshot,
>)
    ensures
        pointer_view(r) == pointer_on(output@, cursor, buffer),
{
    match cursor {
        Some(cursor) => if cursor.entered {
            match logical_pointer_position(cursor.position, buffer, output.logical_size) {
                Some(position) => Some(PointerSnapshot { output: output.name.clone(), position }),
                None => None,
            }
        } else {
            None
        },
        None => None,
    }
}

/// The first output with a number.
fn find_output(outputs: &Vec<Output>, id: u64) -> (r: Option<usize>)
    ensures
        match r {
            Some(i) => i < outputs@.len() && output_with_id(output_views(outputs@), id) == Some(
                outputs@[i as int]@,
            ),
            None => output_with_id(output_views(outputs@), id) is None,
        },
{
    let ghost all = output_views(outputs@);
    let mut i: usize = 0;
    proof {
        assert(all.skip(0) =~= all);
    }
    while i < outputs.len()
        invariant
            i <= outputs@.len(),
            all == output_views(outputs@),
            output_with_id(all, id) == output_with_id(all.skip(i as int), id),
        decreases outputs@.len() - i,
    {
        proof {
            assert(all.skip(i as int)[0] == outputs@[i as int]@);
            assert(all.skip(i as int).skip(1) =~= all.skip(i + 1));
        }
        if outputs[i].id == id {
            return Some(i);
        }
        i = i + 1;
    }
    None
}

/// The frames of the outputs that have arrived.
#[derive(Debug)]
pub struct OutputGather {
    pub images: Dict<Picture>,
    pub pointer: Option<PointerSnapshot>,
}

impl OutputGather {
    /// No frame has arrived.
    pub fn new() -> (r: Self)
        ensures
            r.images@ == Map::<Seq<char>, Picture>::empty(),
            r.pointer is None,
    {
        OutputGather { images: Dict::new(), pointer: None }
    }

    /// Takes the frame of an output, with what the output says of the pointer. The first output that
    /// can tell where the pointer is has it.
    pub fn on_frame(
        &mut self,
        outputs: &Vec<Output>,
        id: u64,
        image: Picture,
        cursor: Option<Cursor>,
    )
        requires
            image.wf(),
            pictures_wf(old(self).images@),
        ensures
            pictures_wf(final(self).images@),
            match output_with_id(output_views(outputs@), id) {
                Some(output) => {
                    &&& final(self).images@ == old(self).images@.insert(output.name, image)
                    &&& pointer_view(final(self).pointer) == match pointer_view(old(self).pointer) {
                        Some(pointer) => Some(pointer),
                        None => pointer_on(output, cursor, (image.width, image.height)),
                    }
                },
                None => *final(self) == *old(self),
            },
    {
        if let Some(i) = find_output(outputs, id) {
            if self.pointer.is_none() {
                self.pointer = find_pointer(&outputs[i], cursor, (image.width, image.height));
            }
            self.images.insert(outputs[i].name.as_str(), image);
        }
    }

    /// The pictures of all outputs and the position of the pointer, when the time is up: outputs
    /// whose frame did not arrive get a placeholder, and the pointer is looked for once more. Of each
    /// output it is told what it says of the pointer and how large its buffer is.
    pub fn finish(
        self,
        outputs: &Vec<Output>,
        cursors: &Vec<Option<Cursor>>,
        buffers: &Vec<Option<(u32, u32)>>,
    ) -> (r: (Dict<Picture>, Option<PointerSnapshot>))
        requires
            outputs@.len() == cursors@.len() == buffers@.len(),
            pictures_wf(self.images@),
        ensures
            picture_views(r.0@) == with_placeholders(
                picture_views(self.images@),
                output_views(outputs@),
            ),
            pictures_wf(r.0@),
            pointer_view(r.1) == match pointer_view(self.pointer) {
                Some(pointer) => Some(pointer),
                None => first_pointer(output_views(outputs@), cursors@, buffers@),
            },
    {
        let pointer = match self.pointer {
            Some(pointer) => Some(pointer),
            None => search_pointer(outputs, cursors, buffers),
        };
        let images = add_placeholders(self.images, outputs);
        (images, pointer)
    }
}

/// The position of the pointer on the first output that can tell it.
fn search_pointer(
    outputs: &Vec<Output>,
    cursors: &Vec<Option<Cursor>>,
    buffers: &Vec<Option<(u32, u32)>>,
) -> (r: Option<PointerSnapshot>)
    requires
        outputs@.len() == cursors@.len() == buffers@.len(),
    ensures
        pointer_view(r) == first_pointer(output_views(outputs@), cursors@, buffers@),
{
    let ghost all = output_views(outputs@);
    let mut i: usize = 0;
    proof {
        assert(all.skip(0) =~= all);
        assert(cursors@.skip(0) =~= cursors@);
        assert(buffers@.skip(0) =~= buffers@);
    }
    while i < outputs.len()
        invariant
            i <= outputs@.len(),
            outputs@.len() == cursors@.len() == buffers@.len(),
            all == output_views(outputs@),
            first_pointer(all, cursors@, buffers@) == first_pointer(
                all.skip(i as int),
                cursors@.skip(i as int),
                buffers@.skip(i as int),
            ),
        decreases outputs@.len() - i,
    {
        proof {
            assert(all.skip(i as int)[0] == outputs@[i as int]@);
            assert(all.skip(i as int).skip(1) =~= all.skip(i + 1));
            assert(cursors@.skip(i as int).skip(1) =~= cursors@.skip(i + 1));
            assert(buffers@.skip(i as int).skip(1) =~= buffers@.skip(i + 1));
        }
        if let Some(buffer) = buffers[i] {
            let found = find_pointer(&outputs[i], cursors[i], buffer);
            if found.is_some() {
                return found;
            }
        }
        i = i + 1;
    }
    None
}

/// The pictures, with a placeholder for each output that has none.
fn add_placeholders(images: Dict<Picture>, outputs: &Vec<Output>) -> (r: Dict<Picture>)
    requires
        pictures_wf(images@),
    ensures
        picture_views(r@) == with_placeholders(picture_views(images@), output_views(outputs@)),
        pictures_wf(r@),
{
    let ghost first = picture_views(images@);
    let ghost all = output_views(outputs@);
    let mut images = images;
    let mut i: usize = 0;
    proof {
        assert(all.take(0) =~= Seq::<OutputView>::empty());
    }
    while i < outputs.len()
        invariant
            i <= outputs@.len(),
            all == output_views(outputs@),
            pictures_wf(images@),
            picture_views(images@) == with_placeholders(first, all.take(i as int)),
        decreases outputs@.len() - i,
    {
        proof {
            assert(all.take(i + 1).drop_last() =~= all.take(i as int));
            assert(all.take(i + 1).last() == outputs@[i as int]@);
        }
        let output = &outputs[i];
        if !images.contains(output.name.as_str()) {
            let picture = placeholder(
                size_or_one(output.logical_size.0),
                size_or_one(output.logical_size.1),
            );
            let ghost before = images@;
            images.insert(output.name.as_str(), picture);
            proof {
                assert(picture_views(images@) =~= picture_views(before).insert(
                    output.name@,
                    picture@,
                ));
            }
        }
        i = i + 1;
    }
    proof {
        assert(all.take(all.len() as int) =~= all);
    }
    images
}

/// When the time is up every output has a picture, and frames that arrived are kept.
pub proof fn law_every_output_has_a_picture(
    images: Map<Seq<char>, PictureView>,
    outputs: Seq<OutputView>,
)
    ensures
        forall|i: int|
            0 <= i < outputs.len() ==> with_placeholders(images, outputs).dom().contains(
                (#[trigger] outputs[i]).name,
            ),
        forall|name: Seq<char>| #[trigger]
            images.dom().contains(name) ==> with_placeholders(images, outputs).dom().contains(name)
                && with_placeholders(images, outputs)[name] == images[name],
    decreases outputs.len(),
{
    if outputs.len() > 0 {
        let init = outputs.drop_last();
        law_every_output_has_a_picture(images, init);
        assert forall|i: int| 0 <= i < outputs.len() implies with_placeholders(
            images,
            outputs,
        ).dom().contains((#[trigger] outputs[i]).name) by {
            if i < init.len() {
                assert(init[i] == outputs[i]);
            }
        }
    }
}

/// Numbered frames, as values.
pub open spec fn numbered_views(images: Seq<(usize, Picture)>) -> Seq<(usize, PictureView)> {
    images.map_values(|image: (usize, Picture)| (image.0, image.1@))
}

/// Numbered frames by output, as values.
pub open spec fn numbered_maps(images: Map<Seq<char>, Vec<(usize, Picture)>>) -> Map<
    Seq<char>,
    Seq<(usize, PictureView)>,
> {
    images.map_values(|list: Vec<(usize, Picture)>| numbered_views(list@))
}

/// Whether all numbered frames hold exactly their pixels.
pub open spec fn numbered_wf(images: Seq<(usize, Picture)>) -> bool {
    forall|i: int| 0 <= i < images.len() ==> (#[trigger] images[i]).1.wf()
}

/// Numbered frames with one more, which comes behind those whose number is not greater.
pub open spec fn inserted(
    images: Seq<(usize, PictureView)>,
    image: (usize, PictureView),
) -> Seq<(usize, PictureView)>
    decreases images.len(),
{
    if images.len() == 0 || images.last().0 <= image.0 {
        images.push(image)
    } else {
        inserted(images.drop_last(), image).push(images.last())
    }
}

/// Whether numbers ascend.
pub open spec fn ascending(images: Seq<(usize, PictureView)>) -> bool {
    forall|i: int, j: int|
        #![trigger images[i], images[j]]
        0 <= i < j < images.len() ==> images[i].0 <= images[j].0
}

/// Frames that ascend by number still do with one more, and no frame is lost.
pub proof fn law_frames_stay_in_order(
    images: Seq<(usize, PictureView)>,
    image: (usize, PictureView),
)
    requires
        ascending(images),
    ensures
        ascending(inserted(images, image)),
        inserted(images, image).to_multiset() == images.to_multiset().insert(image),
    decreases images.len(),
{
    broadcast use vstd::seq_lib::group_to_multiset_ensures;

    if images.len() == 0 || images.last().0 <= image.0 {
        assert(ascending(images.push(image)));
    } else {
        let init = images.drop_last();
        assert(init.push(images.last()) =~= images);
        law_frames_stay_in_order(init, image);
        let rest = inserted(init, image);
        assert forall|i: int| 0 <= i < rest.len() implies (#[trigger] rest[i]).0
            <= images.last().0 by {
            assert(rest.to_multiset().count(rest[i]) > 0) by {
                assert(rest.contains(rest[i]));
            }
            if rest[i] != image {
                assert(init.to_multiset().count(rest[i]) > 0);
                assert(init.contains(rest[i]));
                let k = choose|k: int| 0 <= k < init.len() && init[k] == rest[i];
                assert(images[k] == init[k]);
            }
        }
    }
}

/// Puts a frame behind those whose number is not greater.
fn insert_frame(images: &mut Vec<(usize, Picture)>, index: usize, image: Picture)
    ensures
        numbered_views(final(images)@) == inserted(numbered_views(old(images)@), (index, image@)),
        numbered_wf(old(images)@) && image.wf() ==> numbered_wf(final(images)@),
{
    let ghost all = numbered_views(images@);
    let ghost new = (index, image@);
    let mut k: usize = images.len();
    proof {
        assert(all.take(k as int) =~= all);
        assert(all.skip(k as int) =~= Seq::empty());
        assert(inserted(all, new) =~= inserted(all.take(k as int), new) + all.skip(k as int));
    }
    while k > 0 && images[k - 1].0 > index
        invariant
            k <= images@.len(),
            *images == *old(images),
            new.0 == index,
            all == numbered_views(images@),
            inserted(all, new) == inserted(all.take(k as int), new) + all.skip(k as int),
        decreases k,
    {
        proof {
            let part = all.take(k as int);
            assert(part.last() == all[k - 1]);
            assert(all[k - 1].0 == images@[k - 1].0);
            assert(part.drop_last() =~= all.take(k - 1));
            assert(inserted(all.take(k - 1), new).push(all[k - 1]) + all.skip(k as int) =~= inserted(
                all.take(k - 1),
                new,
            ) + all.skip(k - 1));
        }
        k = k - 1;
    }
    proof {
        if k > 0 {
            assert(all.take(k as int).last() == all[k - 1]);
            assert(all[k - 1].0 == images@[k - 1].0);
        }
        assert(inserted(all.take(k as int), new) == all.take(k as int).push(new));
    }
    images.insert(k, (index, image));
    proof {
        assert(numbered_views(images@) =~= all.take(k as int).push(new) + all.skip(k as int));
    }
}

/// The frames of the windows that have arrived.
#[derive(Debug)]
pub struct ToplevelGather {
    pub images: Dict<Vec<(usize, Picture)>>,
}

impl ToplevelGather {
    /// All frames hold exactly their pixels.
    pub open spec fn wf(self) -> bool {
        forall|name: Seq<char>|
            self.images@.dom().contains(name) ==> numbered_wf((#[trigger] self.images@[name])@)
    }

    /// No frame has arrived.
    pub fn new() -> (r: Self)
        ensures
            r.wf(),
            r.images@ == Map::<Seq<char>, Vec<(usize, Picture)>>::empty(),
    {
        ToplevelGather { images: Dict::new() }
    }

    /// Takes the frame of a window of an output.
    pub fn on_frame(&mut self, output: &str, index: usize, image: Picture)
        ensures
            numbered_maps(final(self).images@) == numbered_maps(old(self).images@).insert(
                output@,
                inserted(
                    if old(self).images@.dom().contains(output@) {
                        numbered_views(old(self).images@[output@]@)
                    } else {
                        Seq::empty()
                    },
                    (index, image@),
                ),
            ),
            old(self).wf() && image.wf() ==> final(self).wf(),
    {
        let ghost before = self.images@;
        let ghost shown = image@;
        match self.images.get_mut(output) {
            Some(list) => {
                insert_frame(list, index, image);
            },
            None => {
                let mut list: Vec<(usize, Picture)> = Vec::new();
                proof {
                    assert(numbered_views(list@) =~= Seq::empty());
                }
                insert_frame(&mut list, index, image);
                self.images.insert(output, list);
            },
        }
        proof {
            assert(numbered_maps(self.images@) =~= numbered_maps(before).insert(
                output@,
                inserted(
                    if before.dom().contains(output@) {
                        numbered_views(before[output@]@)
                    } else {
                        Seq::empty()
                    },
                    (index, shown),
                ),
            ));
        }
    }
}

/// An output is found by its number: the first that has it, and none where no output has it.
pub proof fn law_output_is_found_by_its_number(outputs: Seq<OutputView>, id: u64, k: int)
    ensures
        0 <= k < outputs.len() && outputs[k].id == id && (forall|i: int|
            0 <= i < k ==> (#[trigger] outputs[i]).id != id) ==> output_with_id(outputs, id) == Some(
            outputs[k],
        ),
        (forall|i: int| 0 <= i < outputs.len() ==> (#[trigger] outputs[i]).id != id)
            ==> output_with_id(outputs, id) is None,
    decreases outputs.len(),
{
    if outputs.len() > 0 && outputs[0].id != id {
        let rest = outputs.skip(1);
        law_output_is_found_by_its_number(rest, id, k - 1);
        if forall|i: int| 0 <= i < k ==> (#[trigger] outputs[i]).id != id {
            assert forall|i: int| 0 <= i < k - 1 && i < rest.len() implies (#[trigger] rest[i]).id
                != id by {
                assert(rest[i] == outputs[i + 1]);
            }
        }
        if forall|i: int| 0 <= i < outputs.len() ==> (#[trigger] outputs[i]).id != id {
            assert forall|i: int| 0 <= i < rest.len() implies (#[trigger] rest[i]).id != id by {
                assert(rest[i] == outputs[i + 1]);
            }
        }
    }
}

/// The pointer is on the output that it has entered, at the place that it has there; an output that it
/// has not entered tells nothing of it.
pub proof fn law_pointer_is_on_the_output_it_entered(
    output: OutputView,
    cursor: Cursor,
    buffer: (u32, u32),
)
    ensures
        !cursor.entered ==> pointer_on(output, Some(cursor), buffer) is None,
        pointer_on(output, None, buffer) is None,
        pointer_on(output, Some(cursor), buffer) matches Some(pointer) ==> {
            &&& cursor.entered
            &&& pointer.output == output.name
            &&& logical_position(cursor.position, buffer, output.logical_size) == Some(
                pointer.position,
            )
        },
        cursor.entered && logical_position(cursor.position, buffer, output.logical_size) is Some
            ==> pointer_on(output, Some(cursor), buffer) is Some,
{
}

/// The position of the pointer is that on the first output that can tell it.
pub proof fn law_first_output_tells_the_pointer(
    outputs: Seq<OutputView>,
    cursors: Seq<Option<Cursor>>,
    buffers: Seq<Option<(u32, u32)>>,
    k: int,
)
    requires
        0 <= k < outputs.len(),
        outputs.len() == cursors.len() == buffers.len(),
        buffers[k] is Some,
        pointer_on(outputs[k], cursors[k], buffers[k]->0) is Some,
        forall|i: int|
            #![trigger outputs[i]]
            0 <= i < k ==> (buffers[i] is Some ==> pointer_on(outputs[i], cursors[i], buffers[i]->0) is None),
    ensures
        first_pointer(outputs, cursors, buffers) == pointer_on(outputs[k], cursors[k], buffers[k]->0),
    decreases outputs.len(),
{
    if k > 0 {
        let (a, b, c) = (outputs.skip(1), cursors.skip(1), buffers.skip(1));
        assert(outputs[0] == outputs[0]);
        assert forall|i: int| #![trigger a[i]] 0 <= i < k - 1 && c[i] is Some implies pointer_on(
            a[i],
            b[i],
            c[i]->0,
        ) is None by {
            assert(a[i] == outputs[i + 1]);
        }
        law_first_output_tells_the_pointer(a, b, c, k - 1);
    }
}

} // verus!
