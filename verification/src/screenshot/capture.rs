//! What is captured of outputs and windows.

use crate::dict::Dict;
use crate::rounding::lemma_same_size_keeps;
use crate::screenshot::geometry::{
    logical_position, toplevel_geometry, window_rect, max, magnitude, saturated, Rect, Point,
    WindowGeometry,
};
use crate::screenshot::picture::{
    crop_output_image, cropped, filled, placeholder, placeholder_size, scaled_down, scaled_up,
    visible_area, Picture, PictureView,
};
use crate::text::str_eq;
use vstd::prelude::*;

verus! {

/// What is known of an output.
#[derive(Debug, Clone)]
pub struct OutputInfo {
    pub id: u64,
    pub name: Option<String>,
    pub logical_position: Option<(i32, i32)>,
    pub logical_size: Option<(i32, i32)>,
}

/// An output of which everything is known that a screenshot needs.
#[derive(Debug)]
pub struct Output {
    pub id: u64,
    pub name: String,
    pub logical_position: (i32, i32),
    pub logical_size: (i32, i32),
}

/// An output, as a value.
pub struct OutputView {
    pub id: u64,
    pub name: Seq<char>,
    pub logical_position: (i32, i32),
    pub logical_size: (i32, i32),
}

impl View for Output {
    type V = OutputView;

    open spec fn view(&self) -> OutputView {
        OutputView {
            id: self.id,
            name: self.name@,
            logical_position: self.logical_position,
            logical_size: self.logical_size,
        }
    }
}

/// Outputs, as values.
pub open spec fn output_views(outputs: Seq<Output>) -> Seq<OutputView> {
    outputs.map_values(|output: Output| output@)
}

impl OutputInfo {
    /// The output, if name, position and size are known.
    pub open spec fn known(self) -> Option<OutputView> {
        match (self.name, self.logical_position, self.logical_size) {
            (Some(name), Some(logical_position), Some(logical_size)) => Some(
                OutputView { id: self.id, name: name@, logical_position, logical_size },
            ),
            _ => None,
        }
    }
}

/// The outputs of which everything is known, in their order.
pub open spec fn known_outputs(infos: Seq<Option<OutputInfo>>) -> Seq<OutputView>
    decreases infos.len(),
{
    if infos.len() == 0 {
        Seq::empty()
    } else {
        let rest = known_outputs(infos.drop_last());
        match infos.last() {
            Some(info) => match info.known() {
                Some(output) => rest.push(output),
                None => rest,
            },
            None => rest,
        }
    }
}

/// The outputs of which everything is known, in their order.
pub fn usable_outputs(infos: &Vec<Option<OutputInfo>>) -> (r: Vec<Output>)
    ensures
        output_views(r@) == known_outputs(infos@),
{
    let mut r: Vec<Output> = Vec::new();
    let mut i: usize = 0;
    proof {
        assert(infos@.take(0) =~= Seq::<Option<OutputInfo>>::empty());
        assert(output_views(r@) =~= Seq::<OutputView>::empty());
    }
    while i < infos.len()
        invariant
            i <= infos@.len(),
            output_views(r@) == known_outputs(infos@.take(i as int)),
        decreases infos@.len() - i,
    {
        proof {
            assert(infos@.take(i + 1).drop_last() =~= infos@.take(i as int));
            assert(infos@.take(i + 1).last() == infos@[i as int]);
        }
        if let Some(info) = &infos[i] {
            if let (Some(name), Some(logical_position), Some(logical_size)) = (
                &info.name,
                info.logical_position,
                info.logical_size,
            ) {
                let output = Output {
                    id: info.id,
                    name: name.clone(),
                    logical_position,
                    logical_size,
                };
                proof {
                    assert(output_views(r@.push(output)) =~= output_views(r@).push(output@));
                }
                r.push(output);
            }
        }
        i = i + 1;
    }
    proof {
        assert(infos@.take(infos@.len() as int) =~= infos@);
    }
    r
}

/// The position of the pointer when the screenshot was asked for.
#[derive(Debug)]
pub struct PointerSnapshot {
    pub output: String,
    pub position: Point,
}

/// The position of the pointer, as a value.
pub struct PointerView {
    pub output: Seq<char>,
    pub position: Point,
}

impl View for PointerSnapshot {
    type V = PointerView;

    open spec fn view(&self) -> PointerView {
        PointerView { output: self.output@, position: self.position }
    }
}

/// An optional position of the pointer, as a value.
pub open spec fn pointer_view(pointer: Option<PointerSnapshot>) -> Option<PointerView> {
    match pointer {
        Some(pointer) => Some(pointer@),
        None => None,
    }
}

/// Pictures by name, as values.
pub open spec fn picture_views(pictures: Map<Seq<char>, Picture>) -> Map<Seq<char>, PictureView> {
    pictures.map_values(|picture: Picture| picture@)
}

/// Whether all pictures hold exactly their pixels.
pub open spec fn pictures_wf(pictures: Map<Seq<char>, Picture>) -> bool {
    forall|name: Seq<char>| pictures.dom().contains(name) ==> (#[trigger] pictures[name]).wf()
}

/// A window that is to be captured.
#[derive(Debug)]
pub struct ToplevelCapture {
    pub output_name: String,
    pub logical_size: (i32, i32),
    /// The position of the window among those of the output.
    pub index: usize,
    /// Where the window lies on the output, if that is known.
    pub geometry: Option<WindowGeometry>,
    pub activated: bool,
}

/// A window as it is known before it is captured.
#[derive(Debug, Clone, Copy, PartialEq, Eq, Structural)]
pub struct ToplevelInfo {
    pub geometry: Option<WindowGeometry>,
    pub activated: bool,
}

/// A window that is to be captured, as a value.
pub struct CaptureView {
    pub output_name: Seq<char>,
    pub logical_size: (i32, i32),
    pub index: usize,
    pub geometry: Option<WindowGeometry>,
    pub activated: bool,
}

impl View for ToplevelCapture {
    type V = CaptureView;

    open spec fn view(&self) -> CaptureView {
        CaptureView {
            output_name: self.output_name@,
            logical_size: self.logical_size,
            index: self.index,
            geometry: self.geometry,
            activated: self.activated,
        }
    }
}

/// Windows that are to be captured, as values.
pub open spec fn capture_views(captures: Seq<ToplevelCapture>) -> Seq<CaptureView> {
    captures.map_values(|capture: ToplevelCapture| capture@)
}

/// The windows of one output, numbered.
pub open spec fn output_captures(output: OutputView, toplevels: Seq<ToplevelInfo>) -> Seq<CaptureView> {
    Seq::new(
        toplevels.len(),
        |i: int|
            CaptureView {
                output_name: output.name,
                logical_size: output.logical_size,
                index: i as usize,
                geometry: toplevels[i].geometry,
                activated: toplevels[i].activated,
            },
    )
}

/// The windows of all outputs, one output after the other.
pub open spec fn all_captures(outputs: Seq<OutputView>, toplevels: Seq<Seq<ToplevelInfo>>) -> Seq<
    CaptureView,
>
    decreases outputs.len(),
{
    if outputs.len() == 0 {
        Seq::empty()
    } else {
        all_captures(outputs.drop_last(), toplevels) + output_captures(
            outputs.last(),
            toplevels[outputs.len() - 1],
        )
    }
}

/// Lists of windows, as values.
pub open spec fn toplevel_lists(lists: Seq<Vec<ToplevelInfo>>) -> Seq<Seq<ToplevelInfo>> {
    lists.map_values(|list: Vec<ToplevelInfo>| list@)
}

/// The windows of all outputs, one output after the other. The lists are those of the outputs in
/// their order.
pub fn toplevel_captures(outputs: &Vec<Output>, toplevels: &Vec<Vec<ToplevelInfo>>) -> (r: Vec<
    ToplevelCapture,
>)
    requires
        outputs@.len() == toplevels@.len(),
    ensures
        capture_views(r@) == all_captures(output_views(outputs@), toplevel_lists(toplevels@)),
{
    let ghost all = output_views(outputs@);
    let ghost lists = toplevel_lists(toplevels@);
    let mut r: Vec<ToplevelCapture> = Vec::new();
    let mut o: usize = 0;
    proof {
        assert(all.take(0) =~= Seq::<OutputView>::empty());
        assert(capture_views(r@) =~= Seq::<CaptureView>::empty());
    }
    while o < outputs.len()
        invariant
            o <= outputs@.len(),
            outputs@.len() == toplevels@.len(),
            all == output_views(outputs@),
            lists == toplevel_lists(toplevels@),
            capture_views(r@) == all_captures(all.take(o as int), lists),
        decreases outputs@.len() - o,
    {
        let list = &toplevels[o];
        let ghost before = capture_views(r@);
        let ghost own = output_captures(all[o as int], list@);
        let mut i: usize = 0;
        proof {
            assert(before + own.take(0) =~= before);
        }
        while i < list.len()
            invariant
                i <= list@.len(),
                o < outputs@.len(),
                all == output_views(outputs@),
                own == output_captures(all[o as int], list@),
                capture_views(r@) == before + own.take(i as int),
            decreases list@.len() - i,
        {
            let capture = ToplevelCapture {
                output_name: outputs[o].name.clone(),
                logical_size: outputs[o].logical_size,
                index: i,
                geometry: list[i].geometry,
                activated: list[i].activated,
            };
            proof {
                assert(own[i as int] == capture@);
                assert(own.take(i + 1) =~= own.take(i as int).push(capture@));
                assert(capture_views(r@.push(capture)) =~= capture_views(r@).push(capture@));
                assert(before + own.take(i + 1) =~= (before + own.take(i as int)).push(capture@));
            }
            r.push(capture);
            i = i + 1;
        }
        proof {
            assert(own.take(own.len() as int) =~= own);
            assert(all.take(o + 1).drop_last() =~= all.take(o as int));
            assert(all.take(o + 1).last() == all[o as int]);
            assert(lists[o as int] == list@);
        }
        o = o + 1;
    }
    proof {
        assert(all.take(all.len() as int) =~= all);
    }
    r
}

/// Whether the pointer is over a window.
pub open spec fn hovered(capture: CaptureView, pointer: Option<PointerView>) -> bool {
    match pointer {
        Some(pointer) => pointer.output == capture.output_name && match capture.geometry {
            Some(g) => window_rect(g).holds(pointer.position),
            None => false,
        },
        None => false,
    }
}

/// Whether the pointer is over a window.
fn is_hovered(capture: &ToplevelCapture, pointer: &Option<PointerSnapshot>) -> (r: bool)
    ensures
        r == hovered(capture@, pointer_view(*pointer)),
{
    match pointer {
        Some(pointer) => str_eq(pointer.output.as_str(), capture.output_name.as_str())
            && match toplevel_geometry(capture.geometry) {
            Some(rect) => rect.contains(pointer.position),
            None => false,
        },
        None => false,
    }
}

/// Whether a window is captured before another one: the hovered before the others, then the active
/// ones, then by their number.
pub open spec fn goes_before(
    a: CaptureView,
    b: CaptureView,
    pointer: Option<PointerView>,
) -> bool {
    if hovered(a, pointer) != hovered(b, pointer) {
        hovered(a, pointer)
    } else if a.activated != b.activated {
        a.activated
    } else {
        a.index < b.index
    }
}

/// Whether positions name each window once, and in the order in which windows are captured: of two
/// that are equally urgent the one that was listed first comes first.
pub open spec fn is_capture_order(
    order: Seq<usize>,
    captures: Seq<CaptureView>,
    pointer: Option<PointerView>,
) -> bool {
    &&& order.len() == captures.len()
    &&& forall|i: int| 0 <= i < order.len() ==> (#[trigger] order[i]) < captures.len()
    &&& forall|i: int, j: int|
        #![trigger order[i], order[j]]
        0 <= i < j < order.len() ==> order[i] != order[j] && comes_first(
            order[i] as int,
            order[j] as int,
            captures,
            pointer,
        )
}

/// Whether the window at one position comes before that at another.
pub open spec fn comes_first(
    a: int,
    b: int,
    captures: Seq<CaptureView>,
    pointer: Option<PointerView>,
) -> bool {
    ||| goes_before(captures[a], captures[b], pointer)
    ||| !goes_before(captures[b], captures[a], pointer) && a < b
}

/// The order in which windows come is transitive.
proof fn lemma_comes_first_transitive(
    a: int,
    b: int,
    c: int,
    captures: Seq<CaptureView>,
    pointer: Option<PointerView>,
)
    requires
        comes_first(a, b, captures, pointer),
        comes_first(b, c, captures, pointer),
    ensures
        comes_first(a, c, captures, pointer),
{
}

/// Whether a window is captured before another one.
fn is_before(a: &ToplevelCapture, b: &ToplevelCapture, pointer: &Option<PointerSnapshot>) -> (r:
    bool)
    ensures
        r == goes_before(a@, b@, pointer_view(*pointer)),
{
    let a_hovered = is_hovered(a, pointer);
    let b_hovered = is_hovered(b, pointer);
    if a_hovered != b_hovered {
        a_hovered
    } else if a.activated != b.activated {
        a.activated
    } else {
        a.index < b.index
    }
}

/// The order in which windows are captured: the hovered one first, then the active ones.
pub fn capture_order(captures: &Vec<ToplevelCapture>, pointer: &Option<PointerSnapshot>) -> (r: Vec<
    usize,
>)
    ensures
        is_capture_order(r@, capture_views(captures@), pointer_view(*pointer)),
{
    let ghost all = capture_views(captures@);
    let ghost at = pointer_view(*pointer);
    let mut order: Vec<usize> = Vec::new();
    let mut n: usize = 0;
    while n < captures.len()
        invariant
            n <= captures@.len(),
            all == capture_views(captures@),
            at == pointer_view(*pointer),
            order@.len() == n,
            forall|i: int| 0 <= i < order@.len() ==> (#[trigger] order@[i]) < n,
            forall|i: int, j: int|
                #![trigger order@[i], order@[j]]
                0 <= i < j < order@.len() ==> order@[i] != order@[j] && comes_first(
                    order@[i] as int,
                    order@[j] as int,
                    all,
                    at,
                ),
        decreases captures@.len() - n,
    {
        let mut k: usize = order.len();
        let ghost before = order@;
        while k > 0 && is_before(&captures[n], &captures[order[k - 1]], pointer)
            invariant
                k <= order@.len(),
                n < captures@.len(),
                order@ == before,
                all == capture_views(captures@),
                at == pointer_view(*pointer),
                forall|i: int| 0 <= i < before.len() ==> (#[trigger] before[i]) < n,
                forall|i: int|
                    k <= i < before.len() ==> goes_before(
                        all[n as int],
                        all[(#[trigger] before[i]) as int],
                        at,
                    ),
            decreases k,
        {
            proof {
                assert(all[n as int] == captures@[n as int]@);
                assert(all[before[k - 1] as int] == captures@[before[k - 1] as int]@);
            }
            k = k - 1;
        }
        proof {
            let new = before.insert(k as int, n);
            assert(all[n as int] == captures@[n as int]@);
            if k > 0 {
                assert(all[before[k - 1] as int] == captures@[before[k - 1] as int]@);
                assert(comes_first(before[k - 1] as int, n as int, all, at));
            }
            assert forall|i: int, j: int|
                #![trigger new[i], new[j]]
                0 <= i < j < new.len() implies new[i] != new[j] && comes_first(
                new[i] as int,
                new[j] as int,
                all,
                at,
            ) by {
                if i < k && j < k {
                    assert(new[i] == before[i] && new[j] == before[j]);
                } else if i < k && j == k {
                    assert(new[i] == before[i]);
                    if i < k - 1 {
                        assert(comes_first(before[i] as int, before[k - 1] as int, all, at));
                        lemma_comes_first_transitive(
                            before[i] as int,
                            before[k - 1] as int,
                            n as int,
                            all,
                            at,
                        );
                    }
                } else if i < k && j > k {
                    assert(new[i] == before[i] && new[j] == before[j - 1]);
                } else if i == k {
                    assert(new[j] == before[j - 1]);
                } else {
                    assert(new[i] == before[i - 1] && new[j] == before[j - 1]);
                }
            }
        }
        order.insert(k, n);
        n = n + 1;
    }
    order
}

/// A window with its picture.
#[derive(Debug)]
pub struct ToplevelImage {
    pub image: Picture,
    pub geometry: Option<Rect>,
    pub preview_dimensions: (u32, u32),
    pub activated: bool,
}

/// A window with its picture, as a value.
pub struct ToplevelView {
    pub image: PictureView,
    pub geometry: Option<Rect>,
    pub preview_dimensions: (u32, u32),
    pub activated: bool,
}

impl View for ToplevelImage {
    type V = ToplevelView;

    open spec fn view(&self) -> ToplevelView {
        ToplevelView {
            image: self.image@,
            geometry: self.geometry,
            preview_dimensions: self.preview_dimensions,
            activated: self.activated,
        }
    }
}

/// Windows with their pictures, as values.
pub open spec fn toplevel_views(images: Seq<ToplevelImage>) -> Seq<ToplevelView> {
    images.map_values(|image: ToplevelImage| image@)
}

/// Windows with their pictures, by output, as values.
pub open spec fn toplevel_maps(images: Map<Seq<char>, Vec<ToplevelImage>>) -> Map<
    Seq<char>,
    Seq<ToplevelView>,
> {
    images.map_values(|list: Vec<ToplevelImage>| toplevel_views(list@))
}

/// Whether all pictures of windows hold exactly their pixels.
pub open spec fn toplevels_wf(images: Map<Seq<char>, Vec<ToplevelImage>>) -> bool {
    forall|name: Seq<char>, i: int|
        #![trigger images[name]@[i]]
        images.dom().contains(name) && 0 <= i < images[name]@.len() ==> images[name]@[i].image.wf()
}

/// The shape in which a window is shown: its own, or that of a wide screen where it is not known.
pub open spec fn preview_size(geometry: Option<Rect>) -> (u32, u32) {
    match geometry {
        Some(rect) => (
            max(magnitude(saturated(rect.spec_width())), 1) as u32,
            max(magnitude(saturated(rect.spec_height())), 1) as u32,
        ),
        None => (16u32, 9u32),
    }
}

/// The rectangle of a window, if it is known.
pub open spec fn capture_rect(capture: CaptureView) -> Option<Rect> {
    match capture.geometry {
        Some(g) => Some(window_rect(g)),
        None => None,
    }
}

/// The picture that stands for something of a size.
pub open spec fn placeholder_picture(size: (u32, u32)) -> PictureView {
    let (w, h) = placeholder_size(size.0, size.1);
    filled(w as u32, h as u32, seq![38u8, 38u8, 38u8, 255u8])
}

/// The picture of a window that is cut out of the picture of its output; a placeholder where it is
/// not visible there.
pub open spec fn fallback_picture(
    capture: CaptureView,
    output_images: Map<Seq<char>, PictureView>,
) -> PictureView {
    let geometry = capture_rect(capture);
    if output_images.dom().contains(capture.output_name) && geometry is Some {
        let whole = output_images[capture.output_name];
        match visible_area(whole.width, whole.height, geometry->0, capture.logical_size) {
            Some((left, top, width, height)) => cropped(
                whole,
                left as u32,
                top as u32,
                width as u32,
                height as u32,
            ),
            None => placeholder_picture(preview_size(geometry)),
        }
    } else {
        placeholder_picture(preview_size(geometry))
    }
}

/// A window with the picture that is shown until it has been captured.
pub open spec fn fallback_image(
    capture: CaptureView,
    output_images: Map<Seq<char>, PictureView>,
) -> ToplevelView {
    ToplevelView {
        image: fallback_picture(capture, output_images),
        geometry: capture_rect(capture),
        preview_dimensions: preview_size(capture_rect(capture)),
        activated: capture.activated,
    }
}

/// The windows that were listed, by output, each list in its order.
pub open spec fn fallback_images(
    captures: Seq<CaptureView>,
    output_images: Map<Seq<char>, PictureView>,
) -> Map<Seq<char>, Seq<ToplevelView>>
    decreases captures.len(),
{
    if captures.len() == 0 {
        Map::empty()
    } else {
        let rest = fallback_images(captures.drop_last(), output_images);
        let name = captures.last().output_name;
        let list = if rest.dom().contains(name) {
            rest[name]
        } else {
            Seq::empty()
        };
        rest.insert(name, list.push(fallback_image(captures.last(), output_images)))
    }
}

/// A window with the picture that is shown until it has been captured.
fn make_fallback(capture: &ToplevelCapture, output_images: &Dict<Picture>) -> (r: ToplevelImage)
    requires
        pictures_wf(output_images@),
    ensures
        r@ == fallback_image(capture@, picture_views(output_images@)),
        r.image.wf(),
{
    let geometry = toplevel_geometry(capture.geometry);
    let preview_dimensions: (u32, u32) = match geometry {
        Some(rect) => rect.dimensions_or_default(),
        None => (16, 9),
    };
    let cut: Option<Picture> = match output_images.get(capture.output_name.as_str()) {
        Some(whole) => match geometry {
            Some(rect) => crop_output_image(whole, rect, capture.logical_size),
            None => None,
        },
        None => None,
    };
    let image = match cut {
        Some(image) => image,
        None => placeholder(preview_dimensions.0, preview_dimensions.1),
    };
    ToplevelImage { image, geometry, preview_dimensions, activated: capture.activated }
}

/// Adds a window to the list of its output.
fn add_image(images: &mut Dict<Vec<ToplevelImage>>, name: &str, image: ToplevelImage)
    ensures
        toplevel_maps(final(images)@) == toplevel_maps(old(images)@).insert(
            name@,
            (if old(images)@.dom().contains(name@) {
                toplevel_views(old(images)@[name@]@)
            } else {
                Seq::empty()
            }).push(image@),
        ),
        toplevels_wf(old(images)@) && image.image.wf() ==> toplevels_wf(final(images)@),
{
    let ghost before = images@;
    let ghost shown = image@;
    match images.get_mut(name) {
        Some(list) => {
            let ghost had = list@;
            list.push(image);
            proof {
                assert(toplevel_views(list@) =~= toplevel_views(had).push(shown));
            }
        },
        None => {
            let mut list: Vec<ToplevelImage> = Vec::new();
            list.push(image);
            proof {
                assert(toplevel_views(list@) =~= Seq::<ToplevelView>::empty().push(shown));
            }
            images.insert(name, list);
        },
    }
    proof {
        assert(toplevel_maps(images@) =~= toplevel_maps(before).insert(
            name@,
            (if before.dom().contains(name@) {
                toplevel_views(before[name@]@)
            } else {
                Seq::empty()
            }).push(shown),
        ));
        if toplevels_wf(before) && shown.image.wf() {
            assert forall|other: Seq<char>, i: int|
                #![trigger images@[other]@[i]]
                images@.dom().contains(other) && 0 <= i
                    < images@[other]@.len() implies images@[other]@[i].image.wf() by {
                let list = toplevel_maps(images@)[other];
                assert(list[i] == images@[other]@[i]@);
                if before.dom().contains(other) && i < before[other]@.len() {
                    assert(before[other]@[i].image.wf());
                    assert(list[i] == before[other]@[i]@);
                }
            }
        }
    }
}

/// The windows that were listed, by output, with the pictures that are shown until they have been
/// captured.
pub fn fallback_toplevel_images(
    captures: &Vec<ToplevelCapture>,
    output_images: &Dict<Picture>,
) -> (r: Dict<Vec<ToplevelImage>>)
    requires
        pictures_wf(output_images@),
    ensures
        toplevel_maps(r@) == fallback_images(
            capture_views(captures@),
            picture_views(output_images@),
        ),
        toplevels_wf(r@),
{
    let ghost all = capture_views(captures@);
    let ghost pictures = picture_views(output_images@);
    let mut images: Dict<Vec<ToplevelImage>> = Dict::new();
    let mut i: usize = 0;
    proof {
        assert(all.take(0) =~= Seq::<CaptureView>::empty());
        assert(toplevel_maps(images@) =~= Map::<Seq<char>, Seq<ToplevelView>>::empty());
    }
    while i < captures.len()
        invariant
            i <= captures@.len(),
            all == capture_views(captures@),
            pictures == picture_views(output_images@),
            pictures_wf(output_images@),
            toplevel_maps(images@) == fallback_images(all.take(i as int), pictures),
            toplevels_wf(images@),
        decreases captures@.len() - i,
    {
        proof {
            assert(all.take(i + 1).drop_last() =~= all.take(i as int));
            assert(all.take(i + 1).last() == captures@[i as int]@);
        }
        let image = make_fallback(&captures[i], output_images);
        add_image(&mut images, captures[i].output_name.as_str(), image);
        i = i + 1;
    }
    proof {
        assert(all.take(all.len() as int) =~= all);
    }
    images
}

/// An output is used exactly where its name, position and size are known, and then with them.
pub proof fn law_known_outputs_are_used(infos: Seq<Option<OutputInfo>>, k: int, j: int)
    ensures
        0 <= k < infos.len() ==> (infos[k] matches Some(info) ==> (info.name is Some
            && info.logical_position is Some && info.logical_size is Some ==> known_outputs(
            infos,
        ).contains(
            OutputView {
                id: info.id,
                name: info.name->0@,
                logical_position: info.logical_position->0,
                logical_size: info.logical_size->0,
            },
        ))),
        0 <= j < known_outputs(infos).len() ==> exists|i: int|
            0 <= i < infos.len() && (#[trigger] infos[i]) is Some && infos[i]->0.known() == Some(
                known_outputs(infos)[j],
            ),
    decreases infos.len(),
{
    if infos.len() > 0 {
        let init = infos.drop_last();
        let rest = known_outputs(init);
        let all = known_outputs(infos);
        law_known_outputs_are_used(init, k, j);
        if 0 <= k < infos.len() && infos[k] is Some && infos[k]->0.known() is Some {
            let output = infos[k]->0.known()->0;
            if k < init.len() {
                assert(init[k] == infos[k]);
                let i = choose|i: int| 0 <= i < rest.len() && rest[i] == output;
                assert(all[i] == output);
            } else {
                assert(all.last() == output);
            }
        }
        if 0 <= j < all.len() {
            if j < rest.len() {
                let i = choose|i: int|
                    0 <= i < init.len() && (#[trigger] init[i]) is Some && init[i]->0.known() == Some(
                        rest[j],
                    );
                assert(infos[i] == init[i]);
            } else {
                assert(infos[infos.len() - 1] is Some);
            }
        }
    }
}

/// The window under the pointer is captured before all others, and of the others those in use come before
/// those that are not.
pub proof fn law_urgent_windows_are_captured_first(
    order: Seq<usize>,
    captures: Seq<CaptureView>,
    pointer: Option<PointerView>,
    i: int,
    j: int,
)
    requires
        is_capture_order(order, captures, pointer),
        0 <= i < j < order.len(),
    ensures
        ({
            let (a, b) = (captures[order[i] as int], captures[order[j] as int]);
            &&& hovered(b, pointer) ==> hovered(a, pointer)
            &&& hovered(a, pointer) == hovered(b, pointer) && b.activated ==> a.activated
            &&& hovered(a, pointer) == hovered(b, pointer) && a.activated == b.activated ==> a.index
                <= b.index
        }),
{
    assert(order[i] != order[j]);
}

/// A window is under the pointer exactly where the pointer is on its output and in its rectangle.
pub proof fn law_pointer_is_over_its_window(capture: CaptureView, pointer: PointerView)
    ensures
        capture.geometry matches Some(g) ==> (hovered(capture, Some(pointer)) <==> pointer.output
            == capture.output_name && window_rect(g).holds(pointer.position)),
        capture.geometry is None ==> !hovered(capture, Some(pointer)),
        !hovered(capture, None),
{
}

/// Every window of every output is captured, with the output, the number and the place that it has.
pub proof fn law_every_window_is_captured(
    outputs: Seq<OutputView>,
    toplevels: Seq<Seq<ToplevelInfo>>,
    o: int,
    i: int,
)
    requires
        0 <= o < outputs.len() <= toplevels.len(),
        0 <= i < toplevels[o].len() <= usize::MAX,
    ensures
        all_captures(outputs, toplevels).contains(
            CaptureView {
                output_name: outputs[o].name,
                logical_size: outputs[o].logical_size,
                index: i as usize,
                geometry: toplevels[o][i].geometry,
                activated: toplevels[o][i].activated,
            },
        ),
    decreases outputs.len(),
{
    let init = outputs.drop_last();
    let rest = all_captures(init, toplevels);
    let all = all_captures(outputs, toplevels);
    if o < init.len() {
        law_every_window_is_captured(init, toplevels, o, i);
        let capture = CaptureView {
            output_name: outputs[o].name,
            logical_size: outputs[o].logical_size,
            index: i as usize,
            geometry: toplevels[o][i].geometry,
            activated: toplevels[o][i].activated,
        };
        let k = choose|k: int| 0 <= k < rest.len() && rest[k] == capture;
        assert(all[k] == capture);
    } else {
        assert(all[rest.len() + i] == output_captures(outputs[o], toplevels[o])[i]);
    }
}

/// A window is shown in its own shape, at least one pixel wide and high, and as a wide screen where its
/// rectangle is not known. It keeps its rectangle and whether it is in use.
pub proof fn law_window_is_shown_in_its_shape(
    capture: CaptureView,
    output_images: Map<Seq<char>, PictureView>,
)
    ensures
        ({
            let image = fallback_image(capture, output_images);
            &&& image.activated == capture.activated
            &&& capture.geometry is None ==> image.geometry is None && image.preview_dimensions == (
                16u32,
                9u32,
            )
            &&& capture.geometry matches Some(g) ==> {
                &&& image.geometry == Some(window_rect(g))
                &&& 0 < g.width && g.x + g.width <= i32::MAX ==> image.preview_dimensions.0 == g.width
                &&& 0 < g.height && g.y + g.height <= i32::MAX ==> image.preview_dimensions.1
                    == g.height
            }
            &&& image.preview_dimensions.0 >= 1
            &&& image.preview_dimensions.1 >= 1
        }),
{
}

/// Until a window is captured its picture is cut out of that of its own output, and pictures of other
/// outputs do not matter.
pub proof fn law_other_outputs_do_not_show_the_window(
    capture: CaptureView,
    some: Map<Seq<char>, PictureView>,
    others: Map<Seq<char>, PictureView>,
)
    requires
        some.dom().contains(capture.output_name) <==> others.dom().contains(capture.output_name),
        some.dom().contains(capture.output_name) ==> some[capture.output_name]
            == others[capture.output_name],
    ensures
        fallback_picture(capture, some) == fallback_picture(capture, others),
{
}

/// Where the window lies in the picture of its output, each of its pixels is the pixel of the output at
/// the place.
pub proof fn law_cut_out_pixels_are_those_of_the_output(
    whole: PictureView,
    x: u32,
    y: u32,
    width: u32,
    height: u32,
    column: int,
    line: int,
    channel: int,
)
    requires
        x + width <= whole.width,
        y + height <= whole.height,
        0 <= column < width,
        0 <= line < height,
        0 <= channel < 4,
    ensures
        ({
            let part = cropped(whole, x, y, width, height);
            &&& part.width == width
            &&& part.height == height
            &&& part.data[4 * (line * width + column) + channel] == whole.data[4 * ((y + line)
                * whole.width + (x + column)) + channel]
        }),
{
    let w = width as int;
    let i = 4 * (line * w + column) + channel;
    let r = 4 * column + channel;
    assert(i == line * (4 * w) + r) by (nonlinear_arith)
        requires
            i == 4 * (line * w + column) + channel,
            r == 4 * column + channel,
    ;
    assert(0 <= r < 4 * w);
    vstd::arithmetic::div_mod::lemma_fundamental_div_mod_converse(i, 4 * w, line, r);
    assert(0 <= i < 4 * (w * height)) by (nonlinear_arith)
        requires
            i == 4 * (line * w + column) + channel,
            0 <= column < w,
            0 <= line < height,
            0 <= channel < 4,
    ;
}

/// The list of an output holds its windows in their order, each as it is shown at first.
pub proof fn law_windows_are_listed_under_their_output(
    captures: Seq<CaptureView>,
    output_images: Map<Seq<char>, PictureView>,
    i: int,
)
    requires
        0 <= i < captures.len(),
    ensures
        ({
            let lists = fallback_images(captures, output_images);
            &&& lists.dom().contains(captures[i].output_name)
            &&& lists[captures[i].output_name].contains(fallback_image(captures[i], output_images))
        }),
    decreases captures.len(),
{
    let init = captures.drop_last();
    let rest = fallback_images(init, output_images);
    let all = fallback_images(captures, output_images);
    let name = captures[i].output_name;
    let image = fallback_image(captures[i], output_images);
    if i < init.len() {
        law_windows_are_listed_under_their_output(init, output_images, i);
        let k = choose|k: int| 0 <= k < rest[name].len() && rest[name][k] == image;
        assert(all[name][k] == image);
    } else {
        assert(all[name].last() == image);
    }
}

/// On an output that is shown pixel by pixel, the visible part of a window is what its rectangle has in
/// common with the output.
pub proof fn law_visible_part_is_on_the_output(
    width: u32,
    height: u32,
    geometry: Rect,
    x: int,
    y: int,
)
    requires
        0 < width <= i32::MAX,
        0 < height <= i32::MAX,
    ensures
        ({
            let area = visible_area(width, height, geometry, (width as i32, height as i32));
            geometry.has_point(x, y) && 0 <= x < width && 0 <= y < height <==> (area matches Some(
                (left, top, w, h),
            ) && left <= x < left + w && top <= y < top + h)
        }),
{
    let screen = Rect { left: 0, top: 0, right: width as i32, bottom: height as i32 };
    if let Some(visible) = geometry.intersection(screen) {
        lemma_same_size_keeps(visible.left as nat, width as nat);
        lemma_same_size_keeps(visible.right as nat, width as nat);
        lemma_same_size_keeps(visible.top as nat, height as nat);
        lemma_same_size_keeps(visible.bottom as nat, height as nat);
        assert(scaled_down(visible.left as int, width as int, width as int) == visible.left);
        assert(scaled_up(visible.right as int, width as int, width as int) == visible.right);
        assert(scaled_down(visible.top as int, height as int, height as int) == visible.top);
        assert(scaled_up(visible.bottom as int, height as int, height as int) == visible.bottom);
    }
}

} // verus!
