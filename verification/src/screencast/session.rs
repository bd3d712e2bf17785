//! What a session captures, and how its streams are set up.

use crate::portal::PortalResponse;
use crate::remote_desktop::RemoteDesktopData;
use crate::restore::RestoreData;
use crate::screencast::{
    output_at, persisted, persisted_view, resolved, toplevel_at, CaptureSources, CaptureView,
    LiveSources, OutputSource, PersistedCaptureSources, PersistedView, ToplevelSource, ALL_SOURCE_TYPES,
    CURSOR_MODE_EMBEDDED, SOURCE_TYPE_MONITOR, SOURCE_TYPE_WINDOW,
};
use vstd::prelude::*;

verus! {

/// What a client asks for when it selects sources.
#[derive(Debug)]
pub struct SelectSourcesOptions {
    /// The bits of the kinds of sources; outputs where nothing is said.
    pub types: Option<u32>,
    /// Whether several sources may be chosen; not where nothing is said.
    pub multiple: Option<bool>,
    pub cursor_mode: Option<u32>,
    pub restore_data: Option<RestoreData<PersistedCaptureSources>>,
    pub persist_mode: Option<u32>,
}

/// What is known of a stream.
#[derive(Debug, PartialEq, Eq)]
pub struct StreamProps {
    pub position: Option<(i32, i32)>,
    pub size: (i32, i32),
    pub source_type: u32,
    pub mapping_id: Option<String>,
}

impl Clone for StreamProps {
    fn clone(&self) -> (r: Self)
        ensures
            r == *self,
    {
        StreamProps {
            position: self.position,
            size: self.size,
            source_type: self.source_type,
            mapping_id: self.mapping_id.clone(),
        }
    }
}

/// A source of a stream.
#[derive(Debug, Clone, Copy, PartialEq, Eq, Structural)]
pub enum StreamSource {
    Output(u64),
    Toplevel(u64),
}

/// A stream that is to be set up.
#[derive(Debug)]
pub struct StreamRequest {
    pub source: StreamSource,
    /// Whether the pointer is part of the picture.
    pub overlay_cursor: bool,
    pub props: StreamProps,
}

/// A stream that was set up.
#[derive(Debug)]
pub struct Stream {
    /// The number of the thread that feeds the stream.
    pub thread: u64,
    pub node_id: u32,
    pub props: StreamProps,
}

/// A session.
#[derive(Debug)]
pub struct SessionData {
    /// The numbers of the threads that feed the streams.
    pub screencast_threads: Vec<u64>,
    pub cursor_mode: Option<u32>,
    pub multiple: bool,
    /// The bits of the kinds of sources.
    pub source_types: u32,
    pub persisted_capture_sources: Option<PersistedCaptureSources>,
    pub closed: bool,
    pub remote_desktop: Option<RemoteDesktopData>,
}

/// The bits that are known; outputs where there are none.
pub open spec fn known_types(types: Option<u32>) -> u32 {
    let bits = match types {
        Some(types) => types & ALL_SOURCE_TYPES,
        None => 0,
    };
    if bits == 0 {
        SOURCE_TYPE_MONITOR
    } else {
        bits
    }
}

/// A session always has sources to offer, and none that are not known.
pub proof fn law_some_source_is_offered(types: Option<u32>)
    ensures
        known_types(types) != 0,
        known_types(types) & 7 == known_types(types),
{
    assert(1u32 & 7 == 1) by (bit_vector);
    if let Some(types) = types {
        assert((types & 7) & 7 == types & 7) by (bit_vector);
    }
}

/// The sources that are kept after sources are selected: those that come with the request, if they
/// can be read.
pub open spec fn sources_after(
    data: Option<RestoreData<PersistedCaptureSources>>,
    before: Option<PersistedCaptureSources>,
) -> Option<PersistedView> {
    match data {
        Some(data) => match data.payload() {
            Some(sources) => Some(sources@),
            None => persisted_view(before),
        },
        None => persisted_view(before),
    }
}

impl SessionData {
    /// A session for the screen alone.
    pub fn new() -> (r: Self)
        ensures
            r.screencast_threads@ == Seq::<u64>::empty(),
            r.cursor_mode is None,
            !r.multiple,
            r.source_types == 0,
            r.persisted_capture_sources is None,
            !r.closed,
            r.remote_desktop is None,
    {
        SessionData {
            screencast_threads: Vec::new(),
            cursor_mode: None,
            multiple: false,
            source_types: 0,
            persisted_capture_sources: None,
            closed: false,
            remote_desktop: None,
        }
    }

    /// A session that can move the pointer and press keys, too.
    pub fn new_remote_desktop() -> (r: Self)
        ensures
            r.screencast_threads@ == Seq::<u64>::empty(),
            r.cursor_mode is None,
            !r.multiple,
            r.source_types == 0,
            r.persisted_capture_sources is None,
            !r.closed,
            r.remote_desktop matches Some(data) && data.is_fresh(),
    {
        let mut r = SessionData::new();
        r.remote_desktop = Some(RemoteDesktopData::default());
        r
    }

    /// Closes the session, and tells which threads are to be stopped.
    pub fn close(&mut self) -> (stopped: Vec<u64>)
        ensures
            stopped == old(self).screencast_threads,
            final(self).screencast_threads@ == Seq::<u64>::empty(),
            *final(self) == (SessionData {
                screencast_threads: final(self).screencast_threads,
                closed: true,
                ..*old(self)
            }),
    {
        let mut stopped: Vec<u64> = Vec::new();
        std::mem::swap(&mut stopped, &mut self.screencast_threads);
        self.closed = true;
        stopped
    }

    /// Takes up the sources that a client selects.
    pub fn select_sources(&mut self, options: SelectSourcesOptions)
        ensures
            final(self).cursor_mode == options.cursor_mode,
            final(self).multiple == (options.multiple == Some(true)),
            final(self).source_types == known_types(options.types),
            persisted_view(final(self).persisted_capture_sources) == sources_after(
                options.restore_data,
                old(self).persisted_capture_sources,
            ),
            final(self).remote_desktop == (match old(self).remote_desktop {
                Some(data) => Some(RemoteDesktopData { screen_cast_enabled: true, ..data }),
                None => None,
            }),
            final(self).screencast_threads == old(self).screencast_threads,
            final(self).closed == old(self).closed,
    {
        self.cursor_mode = options.cursor_mode;
        self.multiple = match options.multiple {
            Some(multiple) => multiple,
            None => false,
        };
        let bits: u32 = match options.types {
            Some(types) => types & ALL_SOURCE_TYPES,
            None => 0,
        };
        self.source_types = if bits == 0 {
            SOURCE_TYPE_MONITOR
        } else {
            bits
        };
        if let Some(data) = &options.restore_data {
            if let Some(sources) = data.cosmic_v1_data() {
                self.persisted_capture_sources = Some(sources.clone());
            }
        }
        if let Some(remote_desktop) = &mut self.remote_desktop {
            remote_desktop.screen_cast_enabled = true;
        }
    }
}

/// How it is found out what is captured.
#[derive(Debug)]
pub enum CapturePlan {
    /// There is no output: nothing can be captured.
    Refuse,
    /// What was captured before is captured again.
    Restore(CaptureSources),
    /// The user is asked.
    Prompt { multiple: bool, source_types: u32 },
}

/// How it is found out what a session captures: what was captured before, if it is all there; the
/// user is asked otherwise.
pub fn plan_capture(session: &SessionData, live: &LiveSources) -> (r: CapturePlan)
    ensures
        if live.outputs@.len() == 0 {
            r == CapturePlan::Refuse
        } else {
            match session.persisted_capture_sources {
                Some(kept) if resolved(kept@, *live) is Some => {
                    r matches CapturePlan::Restore(sources) && Some(sources@) == resolved(
                        kept@,
                        *live,
                    )
                },
                _ => r == (CapturePlan::Prompt {
                    multiple: session.multiple,
                    source_types: session.source_types,
                }),
            }
        },
{
    if live.outputs.len() == 0 {
        return CapturePlan::Refuse;
    }
    if let Some(kept) = &session.persisted_capture_sources {
        if let Some(sources) = kept.to_capture_sources(live) {
            return CapturePlan::Restore(sources);
        }
    }
    CapturePlan::Prompt { multiple: session.multiple, source_types: session.source_types }
}

/// The area of a size.
pub open spec fn area(size: (i32, i32)) -> int {
    size.0 * size.1
}

/// Whether areas are numbers.
pub open spec fn areas_fit(sizes: Seq<(i32, i32)>) -> bool {
    forall|i: int| 0 <= i < sizes.len() ==> i32::MIN <= #[trigger] area(sizes[i]) <= i32::MAX
}

/// The size with the greatest area, the last of those that have it; nothing where there is none.
pub open spec fn largest(sizes: Seq<(i32, i32)>) -> (i32, i32)
    decreases sizes.len(),
{
    if sizes.len() == 0 {
        (0, 0)
    } else if sizes.len() > 1 && area(largest(sizes.drop_last())) > area(sizes.last()) {
        largest(sizes.drop_last())
    } else {
        sizes.last()
    }
}

/// No size has a greater area than the largest one, which is one of them.
pub proof fn law_largest_is_greatest(sizes: Seq<(i32, i32)>, i: int)
    requires
        0 <= i < sizes.len(),
    ensures
        area(sizes[i]) <= area(largest(sizes)),
        sizes.contains(largest(sizes)),
    decreases sizes.len(),
{
    if sizes.len() == 1 {
        assert(sizes[0] == largest(sizes));
    } else {
        let rest = sizes.drop_last();
        if i < rest.len() {
            law_largest_is_greatest(rest, i);
            assert(rest[i] == sizes[i]);
        } else {
            law_largest_is_greatest(rest, 0);
        }
        let k = choose|k: int| 0 <= k < rest.len() && rest[k] == largest(rest);
        assert(sizes[k] == largest(rest));
        assert(sizes[sizes.len() - 1] == sizes.last());
    }
}

/// The size with the greatest area.
fn largest_size(sizes: &Vec<(i32, i32)>) -> (r: (i32, i32))
    requires
        areas_fit(sizes@),
    ensures
        r == largest(sizes@),
{
    if sizes.len() == 0 {
        return (0, 0);
    }
    let mut best = sizes[0];
    let mut i: usize = 1;
    proof {
        assert(sizes@.take(1).last() == sizes@[0]);
        assert(area(sizes@[0]) == area(best));
    }
    while i < sizes.len()
        invariant
            1 <= i <= sizes@.len(),
            areas_fit(sizes@),
            best == largest(sizes@.take(i as int)),
            i32::MIN <= area(best) <= i32::MAX,
        decreases sizes@.len() - i,
    {
        proof {
            assert(sizes@.take(i + 1).drop_last() =~= sizes@.take(i as int));
            assert(sizes@.take(i + 1).last() == sizes@[i as int]);
            assert(i32::MIN <= area(sizes@[i as int]) <= i32::MAX);
        }
        let size = sizes[i];
        let best_area: i32 = best.0 * best.1;
        let own_area: i32 = size.0 * size.1;
        if !(best_area > own_area) {
            best = size;
        }
        i = i + 1;
    }
    proof {
        assert(sizes@.take(sizes@.len() as int) =~= sizes@);
    }
    best
}

/// What is known of the stream of an output.
pub open spec fn output_props(output: Option<OutputSource>) -> StreamProps {
    let known = output matches Some(output) && output.known;
    StreamProps {
        position: if known {
            output->0.position
        } else {
            Some((0i32, 0i32))
        },
        size: if known {
            match output->0.size {
                Some(size) => size,
                None => (0i32, 0i32),
            }
        } else {
            (0i32, 0i32)
        },
        source_type: SOURCE_TYPE_MONITOR,
        mapping_id: None,
    }
}

/// What is known of the stream of a window: it is as large as where it is largest.
pub open spec fn toplevel_props(toplevel: Option<ToplevelSource>) -> StreamProps {
    StreamProps {
        position: None,
        size: match toplevel {
            Some(toplevel) => largest(toplevel.sizes@),
            None => (0i32, 0i32),
        },
        source_type: SOURCE_TYPE_WINDOW,
        mapping_id: None,
    }
}

/// The streams of the sources: those of the outputs, then those of the windows.
pub open spec fn stream_requests(
    sources: CaptureView,
    live: LiveSources,
    overlay_cursor: bool,
) -> Seq<StreamRequest> {
    sources.outputs.map_values(
        |id: u64|
            StreamRequest {
                source: StreamSource::Output(id),
                overlay_cursor,
                props: output_props(output_at(live.outputs@, id)),
            },
    ) + sources.toplevels.map_values(
        |id: u64|
            StreamRequest {
                source: StreamSource::Toplevel(id),
                overlay_cursor,
                props: toplevel_props(toplevel_at(live.toplevels@, id)),
            },
    )
}

/// Whether the pointer is part of the picture: it is where nothing is said.
pub open spec fn embeds_cursor(cursor_mode: Option<u32>) -> bool {
    match cursor_mode {
        Some(mode) => mode == CURSOR_MODE_EMBEDDED,
        None => true,
    }
}

/// Whether the areas of a window that may be there are numbers.
pub open spec fn window_fits(window: Option<ToplevelSource>) -> bool {
    match window {
        Some(window) => areas_fit(window.sizes@),
        None => true,
    }
}

/// Whether the areas of all windows that are captured are numbers.
pub open spec fn all_areas_fit(sources: CaptureView, live: LiveSources) -> bool {
    forall|i: int|
        0 <= i < sources.toplevels.len() ==> #[trigger] window_fits(
            toplevel_at(live.toplevels@, sources.toplevels[i]),
        )
}

/// Whether areas are numbers.
fn have_areas(sizes: &Vec<(i32, i32)>) -> (r: bool)
    ensures
        r == areas_fit(sizes@),
{
    let mut i: usize = 0;
    while i < sizes.len()
        invariant
            i <= sizes@.len(),
            forall|j: int| 0 <= j < i ==> i32::MIN <= #[trigger] area(sizes@[j]) <= i32::MAX,
        decreases sizes@.len() - i,
    {
        let size: (i32, i32) = sizes[i];
        if size.0.checked_mul(size.1).is_none() {
            assert(!(i32::MIN <= area(sizes@[i as int]) <= i32::MAX));
            return false;
        }
        i = i + 1;
    }
    true
}

/// Whether the areas of all windows that are captured are numbers, so that the largest size of each
/// can be told.
pub fn all_have_areas(sources: &CaptureSources, live: &LiveSources) -> (r: bool)
    ensures
        r == all_areas_fit(sources@, *live),
{
    let mut i: usize = 0;
    while i < sources.toplevels.len()
        invariant
            i <= sources.toplevels@.len(),
            forall|j: int|
                0 <= j < i ==> #[trigger] window_fits(
                    toplevel_at(live.toplevels@, sources.toplevels@[j]),
                ),
        decreases sources.toplevels@.len() - i,
    {
        let fits = match live.find_toplevel(sources.toplevels[i]) {
            Some(k) => have_areas(&live.toplevels[k].sizes),
            None => true,
        };
        if !fits {
            assert(!window_fits(toplevel_at(live.toplevels@, sources@.toplevels[i as int])));
            return false;
        }
        i = i + 1;
    }
    true
}

/// What is known of the stream of an output.
fn props_of_output(live: &LiveSources, id: u64) -> (r: StreamProps)
    ensures
        r == output_props(output_at(live.outputs@, id)),
{
    let mut position: Option<(i32, i32)> = Some((0, 0));
    let mut size: (i32, i32) = (0, 0);
    if let Some(i) = live.find_output(id) {
        let output = &live.outputs[i];
        if output.known {
            position = output.position;
            size = match output.size {
                Some(size) => size,
                None => (0, 0),
            };
        }
    }
    StreamProps { position, size, source_type: SOURCE_TYPE_MONITOR, mapping_id: None }
}

/// What is known of the stream of a window.
fn props_of_toplevel(live: &LiveSources, id: u64) -> (r: StreamProps)
    requires
        window_fits(toplevel_at(live.toplevels@, id)),
    ensures
        r == toplevel_props(toplevel_at(live.toplevels@, id)),
{
    let size = match live.find_toplevel(id) {
        Some(i) => largest_size(&live.toplevels[i].sizes),
        None => (0, 0),
    };
    StreamProps { position: None, size, source_type: SOURCE_TYPE_WINDOW, mapping_id: None }
}

/// The streams that are to be set up for the sources.
pub fn plan_streams(session: &SessionData, live: &LiveSources, sources: &CaptureSources) -> (r: Vec<
    StreamRequest,
>)
    requires
        all_areas_fit(sources@, *live),
    ensures
        r@ == stream_requests(sources@, *live, embeds_cursor(session.cursor_mode)),
        forall|i: int|
            0 <= i < r@.len() ==> ((#[trigger] r@[i]).overlay_cursor <==> session.cursor_mode is None
                || session.cursor_mode == Some(2u32)),
{
    let overlay_cursor = match session.cursor_mode {
        Some(mode) => mode == CURSOR_MODE_EMBEDDED,
        None => true,
    };
    let ghost all = stream_requests(sources@, *live, overlay_cursor);
    let mut r: Vec<StreamRequest> = Vec::new();
    let mut i: usize = 0;
    while i < sources.outputs.len()
        invariant
            i <= sources.outputs@.len(),
            all == stream_requests(sources@, *live, overlay_cursor),
            r@ == all.take(i as int),
        decreases sources.outputs@.len() - i,
    {
        let id = sources.outputs[i];
        r.push(
            StreamRequest {
                source: StreamSource::Output(id),
                overlay_cursor,
                props: props_of_output(live, id),
            },
        );
        proof {
            assert(r@ =~= all.take(i + 1));
        }
        i = i + 1;
    }
    let mut k: usize = 0;
    while k < sources.toplevels.len()
        invariant
            k <= sources.toplevels@.len(),
            all_areas_fit(sources@, *live),
            all == stream_requests(sources@, *live, overlay_cursor),
            r@ == all.take(sources.outputs@.len() + k),
        decreases sources.toplevels@.len() - k,
    {
        let id = sources.toplevels[k];
        proof {
            assert(window_fits(toplevel_at(live.toplevels@, sources@.toplevels[k as int])));
        }
        r.push(
            StreamRequest {
                source: StreamSource::Toplevel(id),
                overlay_cursor,
                props: props_of_toplevel(live, id),
            },
        );
        proof {
            assert(r@ =~= all.take(sources.outputs@.len() + k + 1));
        }
        k = k + 1;
    }
    proof {
        assert(all.take(all.len() as int) =~= all);
    }
    r
}

/// What a capture gives.
#[derive(Debug)]
pub struct CaptureResult {
    pub streams: Vec<(u32, StreamProps)>,
    pub restore_data: Option<RestoreData<PersistedCaptureSources>>,
    pub sources: Option<PersistedCaptureSources>,
}

/// How a capture ends.
#[derive(Debug)]
pub enum CaptureOutcome {
    Success(CaptureResult),
    /// The session was closed or the user cancelled: these threads are to be stopped.
    Cancelled { stopped: Vec<u64> },
    /// It failed: these threads are to be stopped.
    Other { stopped: Vec<u64> },
}

/// The threads among those that were set up.
pub open spec fn threads_of(streams: Seq<Option<Stream>>) -> Seq<u64>
    decreases streams.len(),
{
    if streams.len() == 0 {
        Seq::empty()
    } else {
        match streams.last() {
            Some(stream) => threads_of(streams.drop_last()).push(stream.thread),
            None => threads_of(streams.drop_last()),
        }
    }
}

/// Whether all streams were set up.
pub open spec fn all_set_up(streams: Seq<Option<Stream>>) -> bool {
    forall|i: int| 0 <= i < streams.len() ==> (#[trigger] streams[i]) is Some
}

/// Nodes and properties of streams.
pub open spec fn stream_entries(streams: Seq<Option<Stream>>) -> Seq<(u32, StreamProps)> {
    streams.map_values(|stream: Option<Stream>| (stream->0.node_id, stream->0.props))
}

/// The data by which a capture can be taken up again.
pub open spec fn kept_data(data: Option<RestoreData<PersistedCaptureSources>>) -> Option<PersistedView> {
    match data {
        Some(data) => match data.payload() {
            Some(sources) => Some(sources@),
            None => None,
        },
        None => None,
    }
}

/// The threads among those that were set up.
fn collect_threads(streams: &Vec<Option<Stream>>) -> (r: (Vec<u64>, bool))
    ensures
        r.0@ == threads_of(streams@),
        r.1 == all_set_up(streams@),
{
    let mut threads: Vec<u64> = Vec::new();
    let mut complete = true;
    let mut i: usize = 0;
    proof {
        assert(streams@.take(0) =~= Seq::<Option<Stream>>::empty());
    }
    while i < streams.len()
        invariant
            i <= streams@.len(),
            threads@ == threads_of(streams@.take(i as int)),
            complete <==> forall|j: int| 0 <= j < i ==> (#[trigger] streams@[j]) is Some,
        decreases streams@.len() - i,
    {
        proof {
            assert(streams@.take(i + 1).drop_last() =~= streams@.take(i as int));
            assert(streams@.take(i + 1).last() == streams@[i as int]);
        }
        match &streams[i] {
            Some(stream) => {
                threads.push(stream.thread);
            },
            None => {
                assert(streams@[i as int] is None);
                complete = false;
            },
        }
        i = i + 1;
    }
    proof {
        assert(streams@.take(streams@.len() as int) =~= streams@);
    }
    (threads, complete)
}

/// Nodes and properties of streams.
fn collect_entries(streams: &Vec<Option<Stream>>) -> (r: Vec<(u32, StreamProps)>)
    requires
        all_set_up(streams@),
    ensures
        r@ == stream_entries(streams@),
{
    let mut entries: Vec<(u32, StreamProps)> = Vec::new();
    let mut i: usize = 0;
    while i < streams.len()
        invariant
            i <= streams@.len(),
            all_set_up(streams@),
            entries@ == stream_entries(streams@).take(i as int),
        decreases streams@.len() - i,
    {
        assert(streams@[i as int] is Some);
        if let Some(stream) = &streams[i] {
            entries.push((stream.node_id, stream.props.clone()));
        }
        proof {
            assert(entries@ =~= stream_entries(streams@).take(i + 1));
        }
        i = i + 1;
    }
    proof {
        assert(entries@ =~= stream_entries(streams@));
    }
    entries
}

impl SessionData {
    /// Ends a capture when each stream was set up or failed, in the order of the sources. One that
    /// fails, or a session that was closed meanwhile, stops them all.
    pub fn finish_capture(
        &mut self,
        live: &LiveSources,
        sources: &CaptureSources,
        streams: &Vec<Option<Stream>>,
    ) -> (r: CaptureOutcome)
        ensures
            if !all_set_up(streams@) {
                &&& r matches CaptureOutcome::Other { stopped }
                &&& stopped@ == threads_of(streams@)
                &&& *final(self) == *old(self)
            } else if old(self).closed {
                &&& r matches CaptureOutcome::Cancelled { stopped }
                &&& stopped@ == threads_of(streams@)
                &&& *final(self) == *old(self)
            } else {
                &&& r matches CaptureOutcome::Success(result)
                &&& result.streams@ == stream_entries(streams@)
                &&& persisted_view(result.sources) == persisted(sources@, *live)
                &&& result.restore_data is Some <==> persisted(sources@, *live) is Some
                &&& kept_data(result.restore_data) == persisted(sources@, *live)
                &&& final(self).screencast_threads@ == threads_of(streams@)
                &&& *final(self) == (SessionData {
                    screencast_threads: final(self).screencast_threads,
                    ..*old(self)
                })
            },
    {
        let (threads, complete) = collect_threads(streams);
        if !complete {
            return CaptureOutcome::Other { stopped: threads };
        }
        if self.closed {
            return CaptureOutcome::Cancelled { stopped: threads };
        }
        let entries = collect_entries(streams);
        self.screencast_threads = threads;
        let kept = PersistedCaptureSources::from_capture_sources(live, sources);
        let restore_data = match &kept {
            Some(kept) => Some(RestoreData::cosmic_v1(kept.clone())),
            None => None,
        };
        CaptureOutcome::Success(CaptureResult { streams: entries, restore_data, sources: kept })
    }
}

/// What a client gets when its streams are set up.
#[derive(Debug)]
pub struct StartResult {
    pub streams: Vec<(u32, StreamProps)>,
    pub persist_mode: Option<u32>,
    pub restore_data: Option<RestoreData<PersistedCaptureSources>>,
}

/// The answer when a capture has ended.
pub fn start_response(outcome: CaptureOutcome) -> (r: PortalResponse<StartResult>)
    ensures
        match outcome {
            CaptureOutcome::Success(result) => r == PortalResponse::Success(
                StartResult {
                    streams: result.streams,
                    persist_mode: None,
                    restore_data: result.restore_data,
                },
            ),
            CaptureOutcome::Cancelled { .. } => r == PortalResponse::<StartResult>::Cancelled,
            CaptureOutcome::Other { .. } => r == PortalResponse::<StartResult>::Other,
        },
{
    match outcome {
        CaptureOutcome::Success(result) => PortalResponse::Success(
            StartResult {
                streams: result.streams,
                persist_mode: None,
                restore_data: result.restore_data,
            },
        ),
        CaptureOutcome::Cancelled { .. } => PortalResponse::Cancelled,
        CaptureOutcome::Other { .. } => PortalResponse::Other,
    }
}

/// The pointer is part of every stream where a client asked for it by the number two or said nothing
/// of it, and of no stream where it asked for anything else.
pub proof fn law_pointer_is_shown_as_asked(
    sources: CaptureView,
    live: LiveSources,
    cursor_mode: Option<u32>,
    i: int,
)
    requires
        0 <= i < sources.outputs.len() + sources.toplevels.len(),
    ensures
        ({
            let request = stream_requests(sources, live, embeds_cursor(cursor_mode))[i];
            &&& cursor_mode is None ==> request.overlay_cursor
            &&& cursor_mode == Some(2u32) ==> request.overlay_cursor
            &&& cursor_mode matches Some(mode) ==> (mode != 2 ==> !request.overlay_cursor)
        }),
{
}

/// There is one stream for each source that was chosen and no other: first those of the outputs, then
/// those of the windows, each in the order of the choice and told by its kind.
pub proof fn law_streams_are_those_of_the_choice(
    sources: CaptureView,
    live: LiveSources,
    overlay_cursor: bool,
    i: int,
)
    ensures
        ({
            let requests = stream_requests(sources, live, overlay_cursor);
            let n = sources.outputs.len();
            &&& requests.len() == n + sources.toplevels.len()
            &&& 0 <= i < n ==> requests[i].source == StreamSource::Output(sources.outputs[i])
                && requests[i].props.source_type == 1
            &&& 0 <= i < sources.toplevels.len() ==> requests[n + i].source
                == StreamSource::Toplevel(sources.toplevels[i]) && requests[n + i].props.source_type
                == 2 && requests[n + i].props.position is None
        }),
{
}

/// The stream of an output that is known lies where the output lies and is as large. That of a window
/// is as large as the window is where it is largest.
pub proof fn law_streams_are_as_large_as_their_sources(
    sources: CaptureView,
    live: LiveSources,
    overlay_cursor: bool,
    i: int,
    k: int,
)
    requires
        0 <= k,
        forall|a: int, b: int|
            #![trigger live.outputs@[a], live.outputs@[b]]
            0 <= a < b < live.outputs@.len() ==> live.outputs@[a].id != live.outputs@[b].id,
        forall|a: int, b: int|
            #![trigger live.toplevels@[a], live.toplevels@[b]]
            0 <= a < b < live.toplevels@.len() ==> live.toplevels@[a].id != live.toplevels@[b].id,
    ensures
        0 <= i < sources.outputs.len() && k < live.outputs@.len() && live.outputs@[k].id
            == sources.outputs[i] && live.outputs@[k].known ==> {
            let props = stream_requests(sources, live, overlay_cursor)[i].props;
            &&& props.position == live.outputs@[k].position
            &&& live.outputs@[k].size is Some ==> props.size == live.outputs@[k].size->0
        },
        0 <= i < sources.toplevels.len() && k < live.toplevels@.len() && live.toplevels@[k].id
            == sources.toplevels[i] && live.toplevels@[k].sizes@.len() > 0 ==> {
            let n = sources.outputs.len();
            let size = stream_requests(sources, live, overlay_cursor)[n + i].props.size;
            let sizes = live.toplevels@[k].sizes@;
            &&& sizes.contains(size)
            &&& forall|j: int| 0 <= j < sizes.len() ==> area(#[trigger] sizes[j]) <= size.0 * size.1
        },
{
    if 0 <= i < sources.outputs.len() && k < live.outputs@.len() {
        crate::screencast::law_output_is_found_by_number(live.outputs@, sources.outputs[i]);
        if let Some(output) = output_at(live.outputs@, sources.outputs[i]) {
            let at = choose|at: int| 0 <= at < live.outputs@.len() && live.outputs@[at] == output;
            assert(live.outputs@[at] == output);
            assert(at < k ==> live.outputs@[at].id != live.outputs@[k].id);
            assert(k < at ==> live.outputs@[k].id != live.outputs@[at].id);
        }
    }
    if 0 <= i < sources.toplevels.len() && k < live.toplevels@.len() {
        crate::screencast::law_window_is_found_by_number(live.toplevels@, sources.toplevels[i]);
        if let Some(window) = toplevel_at(live.toplevels@, sources.toplevels[i]) {
            let at = choose|at: int| 0 <= at < live.toplevels@.len() && live.toplevels@[at] == window;
            assert(live.toplevels@[at] == window);
            assert(at < k ==> live.toplevels@[at].id != live.toplevels@[k].id);
            assert(k < at ==> live.toplevels@[k].id != live.toplevels@[at].id);
        }
        let sizes = live.toplevels@[k].sizes@;
        if sizes.len() > 0 {
            law_largest_is_greatest(sizes, 0);
            assert forall|j: int| 0 <= j < sizes.len() implies area(#[trigger] sizes[j]) <= area(
                largest(sizes),
            ) by {
                law_largest_is_greatest(sizes, j);
            }
        }
    }
}

/// Outputs are offered where a client asks for them or for nothing that is known, windows where it asks
/// for them.
pub proof fn law_sources_are_offered_as_asked(types: u32)
    ensures
        known_types(None) == 1,
        types & 7 == 0 ==> known_types(Some(types)) == 1,
        types & 7 != 0 ==> {
            &&& known_types(Some(types)) & 1 == types & 1
            &&& known_types(Some(types)) & 2 == types & 2
            &&& known_types(Some(types)) & 4 == types & 4
        },
{
    assert((types & 7) & 1 == types & 1 && (types & 7) & 2 == types & 2 && (types & 7) & 4 == types
        & 4) by (bit_vector);
}

/// Sources that come with a request replace those that were kept, if they can be read; else the kept
/// ones stay.
pub proof fn law_sources_that_come_replace_the_kept(
    data: RestoreData<PersistedCaptureSources>,
    before: Option<PersistedCaptureSources>,
)
    ensures
        data.vendor@ == "COSMIC"@ && data.version == 1 && data.data is Some ==> sources_after(
            Some(data),
            before,
        ) == Some(data.data->0@),
        data.vendor@ != "COSMIC"@ || data.version != 1 || data.data is None ==> sources_after(
            Some(data),
            before,
        ) == persisted_view(before),
        sources_after(None, before) == persisted_view(before),
{
}

/// The streams of a capture are told in the order in which they were asked for, each with its node, and
/// each is fed by its own thread.
pub proof fn law_streams_are_told_in_order(streams: Seq<Option<Stream>>, i: int)
    requires
        all_set_up(streams),
        0 <= i < streams.len(),
    ensures
        stream_entries(streams).len() == streams.len(),
        streams[i] matches Some(stream) && stream_entries(streams)[i] == (
            stream.node_id,
            stream.props,
        ),
        threads_of(streams).len() == streams.len(),
        threads_of(streams)[i] == streams[i]->0.thread,
    decreases streams.len(),
{
    let init = streams.drop_last();
    assert(all_set_up(init)) by {
        assert forall|j: int| 0 <= j < init.len() implies (#[trigger] init[j]) is Some by {
            assert(streams[j] is Some);
        }
    }
    if init.len() > 0 {
        law_streams_are_told_in_order(
            init,
            if i < init.len() {
                i
            } else {
                0
            },
        );
    }
    reveal_with_fuel(threads_of, 2);
    assert(streams[i] is Some);
    assert(streams[streams.len() - 1] is Some);
}

/// Whatever failed, all threads that were started are known, so that they can be stopped.
pub proof fn law_started_threads_are_known(streams: Seq<Option<Stream>>, thread: u64)
    ensures
        threads_of(streams).contains(thread) <==> exists|i: int|
            0 <= i < streams.len() && (#[trigger] streams[i] matches Some(stream) && stream.thread
                == thread),
    decreases streams.len(),
{
    if streams.len() > 0 {
        let init = streams.drop_last();
        law_started_threads_are_known(init, thread);
        let rest = threads_of(init);
        if threads_of(streams).contains(thread) {
            let k = choose|k: int|
                0 <= k < threads_of(streams).len() && threads_of(streams)[k] == thread;
            if k < rest.len() {
                assert(rest[k] == thread);
                let i = choose|i: int|
                    0 <= i < init.len() && (#[trigger] init[i] matches Some(stream) && stream.thread
                        == thread);
                assert(streams[i] == init[i]);
            } else {
                assert(streams[streams.len() - 1] is Some);
            }
        }
        if exists|i: int|
            0 <= i < streams.len() && (#[trigger] streams[i] matches Some(stream) && stream.thread
                == thread) {
            let i = choose|i: int|
                0 <= i < streams.len() && (#[trigger] streams[i] matches Some(stream)
                    && stream.thread == thread);
            if i < init.len() {
                assert(init[i] == streams[i]);
                assert(rest.contains(thread));
                let k = choose|k: int| 0 <= k < rest.len() && rest[k] == thread;
                assert(threads_of(streams)[k] == thread);
            } else {
                assert(threads_of(streams).last() == thread);
            }
        }
    }
}

} // verus!
