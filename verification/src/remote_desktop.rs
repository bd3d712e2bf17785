//! Sessions in which an application moves the pointer and presses keys for the user.

pub mod dialog;
pub mod ei;

use crate::portal::PortalResponse;
use crate::restore::RestoreData;
use crate::screencast::session::{CaptureOutcome, CaptureResult, SessionData, StreamProps};
use crate::screencast::{
    persisted_view, resolved, CaptureSources, LiveSources, PersistedCaptureSources, PersistedView,
};
use vstd::prelude::*;

verus! {

/// The bit for keyboards.
pub const DEVICE_KEYBOARD: u32 = 1;

/// The bit for pointers.
pub const DEVICE_POINTER: u32 = 2;

/// The bit for touchscreens.
pub const DEVICE_TOUCHSCREEN: u32 = 4;

/// The bits of all devices.
pub const ALL_DEVICE_TYPES: u32 = 7;

/// Consent is not kept.
pub const PERSIST_NONE: u32 = 0;

/// Consent is kept as long as the application runs.
pub const PERSIST_WHILE_RUNNING: u32 = 1;

/// Consent is kept until it is revoked.
pub const PERSIST_UNTIL_REVOKED: u32 = 2;

/// What a session for input has come to.
#[derive(Debug)]
pub struct RemoteDesktopData {
    pub device_types: u32,
    pub clipboard_enabled: bool,
    pub persist_mode: u32,
    pub granted_persist_mode: u32,
    pub screen_cast_enabled: bool,
    /// The consent that the client came with.
    pub restore: Option<PersistedRemoteDesktop>,
    /// Where the streams lie on the desktop.
    pub stream_offsets: Vec<(u32, (i32, i32))>,
}

/// What was consented to.
#[derive(Debug)]
pub struct PersistedRemoteDesktop {
    pub device_types: u32,
    pub clipboard_enabled: bool,
    pub screen_cast_enabled: bool,
    pub sources: PersistedCaptureSources,
}

/// What was consented to, as a value.
pub struct ConsentView {
    pub device_types: u32,
    pub clipboard_enabled: bool,
    pub screen_cast_enabled: bool,
    pub sources: PersistedView,
}

impl View for PersistedRemoteDesktop {
    type V = ConsentView;

    open spec fn view(&self) -> ConsentView {
        ConsentView {
            device_types: self.device_types,
            clipboard_enabled: self.clipboard_enabled,
            screen_cast_enabled: self.screen_cast_enabled,
            sources: self.sources@,
        }
    }
}

/// A consent that may be there, as a value.
pub open spec fn consent_view(consent: Option<PersistedRemoteDesktop>) -> Option<ConsentView> {
    match consent {
        Some(consent) => Some(consent@),
        None => None,
    }
}

impl Clone for PersistedRemoteDesktop {
    fn clone(&self) -> (r: Self)
        ensures
            r@ == self@,
    {
        PersistedRemoteDesktop {
            device_types: self.device_types,
            clipboard_enabled: self.clipboard_enabled,
            screen_cast_enabled: self.screen_cast_enabled,
            sources: self.sources.clone(),
        }
    }
}

impl RemoteDesktopData {
    /// Nothing was selected, consented to or captured.
    pub open spec fn is_fresh(self) -> bool {
        &&& self.device_types == ALL_DEVICE_TYPES
        &&& !self.clipboard_enabled
        &&& self.persist_mode == PERSIST_NONE
        &&& self.granted_persist_mode == PERSIST_NONE
        &&& !self.screen_cast_enabled
        &&& self.restore is None
        &&& self.stream_offsets@ == Seq::<(u32, (i32, i32))>::empty()
    }
}

impl Default for RemoteDesktopData {
    fn default() -> (r: Self)
        ensures
            r.is_fresh(),
    {
        RemoteDesktopData {
            device_types: ALL_DEVICE_TYPES,
            clipboard_enabled: false,
            persist_mode: PERSIST_NONE,
            granted_persist_mode: PERSIST_NONE,
            screen_cast_enabled: false,
            restore: None,
            stream_offsets: Vec::new(),
        }
    }
}

/// What a client asks for when it selects devices.
#[derive(Debug)]
pub struct SelectDevicesOptions {
    /// The bits of the devices; all of them where nothing is said.
    pub types: Option<u32>,
    pub restore_data: Option<RestoreData<PersistedRemoteDesktop>>,
    /// How long consent is kept; not at all where nothing is said.
    pub persist_mode: Option<u32>,
}

/// The consent that a request comes with, if it can be read.
pub open spec fn consent_of(data: Option<RestoreData<PersistedRemoteDesktop>>) -> Option<ConsentView> {
    match data {
        Some(data) => consent_view(data.payload()),
        None => None,
    }
}

impl RemoteDesktopData {
    /// Takes up the devices that a client selects.
    pub fn select_devices(&mut self, options: SelectDevicesOptions)
        ensures
            final(self).device_types == match options.types {
                Some(types) => types & ALL_DEVICE_TYPES,
                None => ALL_DEVICE_TYPES,
            },
            final(self).persist_mode == match options.persist_mode {
                Some(mode) => mode,
                None => PERSIST_NONE,
            },
            consent_view(final(self).restore) == consent_of(options.restore_data),
            *final(self) == (RemoteDesktopData {
                device_types: final(self).device_types,
                persist_mode: final(self).persist_mode,
                restore: final(self).restore,
                ..*old(self)
            }),
    {
        self.device_types = match options.types {
            Some(types) => types & ALL_DEVICE_TYPES,
            None => ALL_DEVICE_TYPES,
        };
        self.persist_mode = match options.persist_mode {
            Some(mode) => mode,
            None => PERSIST_NONE,
        };
        self.restore = match &options.restore_data {
            Some(data) => match data.cosmic_v1_data() {
                Some(consent) => Some(consent.clone()),
                None => None,
            },
            None => None,
        };
    }

    /// Where a stream lies on the desktop; at the origin where it is not known.
    pub fn stream_offset(&self, stream: u32) -> (r: (i32, i32))
        ensures
            r == offset_of(self.stream_offsets@, stream),
    {
        let mut i: usize = 0;
        proof {
            assert(self.stream_offsets@.skip(0) =~= self.stream_offsets@);
        }
        while i < self.stream_offsets.len()
            invariant
                i <= self.stream_offsets@.len(),
                offset_of(self.stream_offsets@, stream) == offset_of(
                    self.stream_offsets@.skip(i as int),
                    stream,
                ),
            decreases self.stream_offsets@.len() - i,
        {
            proof {
                assert(self.stream_offsets@.skip(i as int).skip(1) =~= self.stream_offsets@.skip(
                    i + 1,
                ));
            }
            let (node, offset) = self.stream_offsets[i];
            if node == stream {
                return offset;
            }
            i = i + 1;
        }
        (0, 0)
    }
}

/// Where a stream lies on the desktop; at the origin where it is not known.
pub open spec fn offset_of(offsets: Seq<(u32, (i32, i32))>, stream: u32) -> (i32, i32)
    decreases offsets.len(),
{
    if offsets.len() == 0 {
        (0, 0)
    } else if offsets[0].0 == stream {
        offsets[0].1
    } else {
        offset_of(offsets.skip(1), stream)
    }
}

/// Whether a consent is one to this request: to the same devices, to the same use of the screen, and
/// to outputs and windows that are all still there.
pub open spec fn still_holds(
    consent: Option<ConsentView>,
    device_types: u32,
    screen_cast_enabled: bool,
    live: LiveSources,
) -> bool {
    match consent {
        Some(consent) => {
            &&& consent.device_types & ALL_DEVICE_TYPES == device_types
            &&& consent.screen_cast_enabled == screen_cast_enabled
            &&& screen_cast_enabled ==> resolved(consent.sources, live) is Some
        },
        None => false,
    }
}

/// A request to start, as it was when it came in.
#[derive(Debug, Clone, Copy, PartialEq, Eq, Structural)]
pub struct RemoteStart {
    pub device_types: u32,
    pub clipboard_enabled: bool,
    pub persist_mode: u32,
    pub screen_cast_enabled: bool,
    pub multiple: bool,
    pub source_types: u32,
    /// Whether the consent that came with the request holds, so that the user is not asked.
    pub restored: bool,
}

/// The request to start a session for input.
pub open spec fn start_of(
    session: SessionData,
    remote: RemoteDesktopData,
    live: LiveSources,
) -> RemoteStart {
    RemoteStart {
        device_types: remote.device_types,
        clipboard_enabled: remote.clipboard_enabled,
        persist_mode: remote.persist_mode,
        screen_cast_enabled: remote.screen_cast_enabled,
        multiple: session.multiple,
        source_types: session.source_types,
        restored: still_holds(
            consent_view(remote.restore),
            remote.device_types,
            remote.screen_cast_enabled,
            live,
        ),
    }
}

impl SessionData {
    /// Takes up the request to start a session for input: nothing where it is none, or where the
    /// screen is wanted and there is no output. The consent that came with it is used up. Where it
    /// holds, what is captured is what was captured before.
    pub fn begin_remote_start(&mut self, live: &LiveSources) -> (r: Option<RemoteStart>)
        ensures
            match old(self).remote_desktop {
                None => r is None && *final(self) == *old(self),
                Some(remote) => {
                    let start = start_of(*old(self), remote, *live);
                    &&& final(self).remote_desktop == Some(
                        RemoteDesktopData { restore: None, ..remote },
                    )
                    &&& *final(self) == (SessionData {
                        remote_desktop: final(self).remote_desktop,
                        persisted_capture_sources: final(self).persisted_capture_sources,
                        ..*old(self)
                    })
                    &&& if remote.screen_cast_enabled && live.outputs@.len() == 0 {
                        &&& r is None
                        &&& final(self).persisted_capture_sources
                            == old(self).persisted_capture_sources
                    } else {
                        &&& r == Some(start)
                        &&& persisted_view(final(self).persisted_capture_sources) == if start.restored
                            && start.screen_cast_enabled {
                            Some(remote.restore->0@.sources)
                        } else {
                            persisted_view(old(self).persisted_capture_sources)
                        }
                    }
                },
            },
    {
        let consent = match &mut self.remote_desktop {
            Some(remote) => remote.restore.take(),
            None => {
                return None;
            },
        };
        match &self.remote_desktop {
            Some(remote) => {
                if remote.screen_cast_enabled && live.outputs.len() == 0 {
                    return None;
                }
                let restored = match &consent {
                    Some(consent) => consent.device_types & ALL_DEVICE_TYPES == remote.device_types
                        && consent.screen_cast_enabled == remote.screen_cast_enabled && (
                    !remote.screen_cast_enabled || consent.sources.resolves(live)),
                    None => false,
                };
                let start = RemoteStart {
                    device_types: remote.device_types,
                    clipboard_enabled: remote.clipboard_enabled,
                    persist_mode: remote.persist_mode,
                    screen_cast_enabled: remote.screen_cast_enabled,
                    multiple: self.multiple,
                    source_types: self.source_types,
                    restored,
                };
                if restored && start.screen_cast_enabled {
                    if let Some(consent) = &consent {
                        self.persisted_capture_sources = Some(consent.sources.clone());
                    }
                }
                Some(start)
            },
            None => None,
        }
    }
}

/// What the user answered.
#[derive(Debug)]
pub struct PromptResponse {
    pub persist_mode: u32,
    pub capture_sources: CaptureSources,
}

/// What is done when it is known that a session may start.
#[derive(Debug)]
pub enum RemoteStep {
    /// The user said no, or the session was closed.
    Cancelled,
    /// These sources are captured.
    CaptureFrom { granted: u32, sources: CaptureSources },
    /// What was captured before is captured again.
    CaptureAgain { granted: u32 },
    /// The screen is not wanted: the session starts.
    Finish { granted: u32 },
}

/// How long consent is kept: as the user said, or as was asked where the user was not asked.
pub open spec fn granted_mode(start: RemoteStart, response: Option<PromptResponse>) -> u32 {
    match response {
        Some(response) => response.persist_mode,
        None => start.persist_mode,
    }
}

impl SessionData {
    /// Goes on when the user has answered, or when the user need not be asked.
    pub fn after_prompt(&mut self, start: RemoteStart, response: Option<PromptResponse>) -> (r:
        RemoteStep)
        requires
            start.restored ==> response is None,
        ensures
            if (!start.restored && response is None) || old(self).closed {
                r == RemoteStep::Cancelled && *final(self) == *old(self)
            } else {
                let granted = granted_mode(start, response);
                &&& *final(self) == (SessionData {
                    remote_desktop: match old(self).remote_desktop {
                        Some(remote) => Some(
                            RemoteDesktopData { granted_persist_mode: granted, ..remote },
                        ),
                        None => None,
                    },
                    ..*old(self)
                })
                &&& r == if !start.screen_cast_enabled {
                    RemoteStep::Finish { granted }
                } else {
                    match response {
                        Some(response) => RemoteStep::CaptureFrom {
                            granted,
                            sources: response.capture_sources,
                        },
                        None => RemoteStep::CaptureAgain { granted },
                    }
                }
            },
    {
        if !start.restored && response.is_none() {
            return RemoteStep::Cancelled;
        }
        if self.closed {
            return RemoteStep::Cancelled;
        }
        let granted: u32 = match &response {
            Some(response) => response.persist_mode,
            None => start.persist_mode,
        };
        if let Some(remote) = &mut self.remote_desktop {
            remote.granted_persist_mode = granted;
        }
        if !start.screen_cast_enabled {
            return RemoteStep::Finish { granted };
        }
        match response {
            Some(response) => RemoteStep::CaptureFrom {
                granted,
                sources: response.capture_sources,
            },
            None => RemoteStep::CaptureAgain { granted },
        }
    }
}

/// What a client gets when its session has started.
#[derive(Debug)]
pub struct StartResult {
    pub devices: u32,
    pub clipboard_enabled: bool,
    pub streams: Vec<(u32, StreamProps)>,
    pub persist_mode: u32,
    pub restore_data: Option<RestoreData<PersistedRemoteDesktop>>,
}

/// Where streams lie on the desktop: at the origin where it is not known.
pub open spec fn offsets_of(streams: Seq<(u32, StreamProps)>) -> Seq<(u32, (i32, i32))> {
    streams.map_values(
        |stream: (u32, StreamProps)|
            (
                stream.0,
                match stream.1.position {
                    Some(position) => position,
                    None => (0i32, 0i32),
                },
            ),
    )
}

/// Where streams lie on the desktop.
fn collect_offsets(streams: &Vec<(u32, StreamProps)>) -> (r: Vec<(u32, (i32, i32))>)
    ensures
        r@ == offsets_of(streams@),
{
    let mut r: Vec<(u32, (i32, i32))> = Vec::new();
    let mut i: usize = 0;
    while i < streams.len()
        invariant
            i <= streams@.len(),
            r@ == offsets_of(streams@).take(i as int),
        decreases streams@.len() - i,
    {
        let position = match streams[i].1.position {
            Some(position) => position,
            None => (0, 0),
        };
        r.push((streams[i].0, position));
        proof {
            assert(r@ =~= offsets_of(streams@).take(i + 1));
        }
        i = i + 1;
    }
    proof {
        assert(r@ =~= offsets_of(streams@));
    }
    r
}

/// The sources that consent is kept for.
pub open spec fn sources_of(capture: Option<CaptureResult>) -> PersistedView {
    match capture {
        Some(result) => match result.sources {
            Some(sources) => sources@,
            None => PersistedView { outputs: Seq::empty(), toplevels: Seq::empty() },
        },
        None => PersistedView { outputs: Seq::empty(), toplevels: Seq::empty() },
    }
}

/// The streams of a capture; none where nothing was captured.
pub open spec fn streams_of(capture: Option<CaptureResult>) -> Seq<(u32, StreamProps)> {
    match capture {
        Some(result) => result.streams@,
        None => Seq::empty(),
    }
}

impl SessionData {
    /// Starts the session when everything that is wanted is captured: the client gets the devices,
    /// the streams, and the consent where it is kept.
    pub fn finish_remote_start(
        &mut self,
        start: RemoteStart,
        granted: u32,
        capture: Option<CaptureResult>,
    ) -> (r: StartResult)
        ensures
            r.devices == start.device_types,
            r.clipboard_enabled == start.clipboard_enabled,
            r.streams@ == streams_of(capture),
            r.persist_mode == granted,
            r.restore_data is Some <==> granted != PERSIST_NONE,
            consent_of(r.restore_data) == if granted != PERSIST_NONE {
                Some(
                    ConsentView {
                        device_types: start.device_types,
                        clipboard_enabled: start.clipboard_enabled,
                        screen_cast_enabled: start.screen_cast_enabled,
                        sources: sources_of(capture),
                    },
                )
            } else {
                None
            },
            match old(self).remote_desktop {
                Some(remote) => {
                    &&& final(self).remote_desktop matches Some(new)
                    &&& new.stream_offsets@ == offsets_of(streams_of(capture))
                    &&& *final(self) == (SessionData {
                        remote_desktop: Some(
                            RemoteDesktopData { stream_offsets: new.stream_offsets, ..remote },
                        ),
                        ..*old(self)
                    })
                },
                None => *final(self) == *old(self),
            },
    {
        let (streams, sources) = match capture {
            Some(result) => {
                let sources = match result.sources {
                    Some(sources) => sources,
                    None => PersistedCaptureSources::default(),
                };
                (result.streams, sources)
            },
            None => (Vec::new(), PersistedCaptureSources::default()),
        };
        let restore_data = if granted != PERSIST_NONE {
            Some(
                RestoreData::cosmic_v1(
                    PersistedRemoteDesktop {
                        device_types: start.device_types,
                        clipboard_enabled: start.clipboard_enabled,
                        screen_cast_enabled: start.screen_cast_enabled,
                        sources,
                    },
                ),
            )
        } else {
            None
        };
        let offsets = collect_offsets(&streams);
        if let Some(remote) = &mut self.remote_desktop {
            remote.stream_offsets = offsets;
        }
        StartResult {
            devices: start.device_types,
            clipboard_enabled: start.clipboard_enabled,
            streams,
            persist_mode: granted,
            restore_data,
        }
    }

    /// The answer when the capture for a session for input has ended.
    pub fn on_remote_capture(
        &mut self,
        start: RemoteStart,
        granted: u32,
        outcome: CaptureOutcome,
    ) -> (r: PortalResponse<StartResult>)
        ensures
            match outcome {
                CaptureOutcome::Success(result) => {
                    &&& r matches PortalResponse::Success(answer)
                    &&& answer.devices == start.device_types
                    &&& answer.clipboard_enabled == start.clipboard_enabled
                    &&& answer.streams@ == result.streams@
                    &&& answer.persist_mode == granted
                    &&& answer.restore_data is Some <==> granted != PERSIST_NONE
                    &&& consent_of(answer.restore_data) == if granted != PERSIST_NONE {
                        Some(
                            ConsentView {
                                device_types: start.device_types,
                                clipboard_enabled: start.clipboard_enabled,
                                screen_cast_enabled: start.screen_cast_enabled,
                                sources: sources_of(Some(result)),
                            },
                        )
                    } else {
                        None
                    }
                    &&& match old(self).remote_desktop {
                        Some(remote) => {
                            &&& final(self).remote_desktop matches Some(new)
                            &&& new.stream_offsets@ == offsets_of(result.streams@)
                            &&& *final(self) == (SessionData {
                                remote_desktop: Some(
                                    RemoteDesktopData {
                                        stream_offsets: new.stream_offsets,
                                        ..remote
                                    },
                                ),
                                ..*old(self)
                            })
                        },
                        None => *final(self) == *old(self),
                    }
                },
                CaptureOutcome::Cancelled { .. } => r == PortalResponse::<StartResult>::Cancelled
                    && *final(self) == *old(self),
                CaptureOutcome::Other { .. } => r == PortalResponse::<StartResult>::Other
                    && *final(self) == *old(self),
            },
    {
        match outcome {
            CaptureOutcome::Success(result) => PortalResponse::Success(
                self.finish_remote_start(start, granted, Some(result)),
            ),
            CaptureOutcome::Cancelled { .. } => PortalResponse::Cancelled,
            CaptureOutcome::Other { .. } => PortalResponse::Other,
        }
    }
}

/// A consent that is handed out holds for the same request, as long as the outputs and windows are
/// there.
pub proof fn law_handed_out_consent_holds(
    device_types: u32,
    clipboard_enabled: bool,
    screen_cast_enabled: bool,
    sources: PersistedView,
    live: LiveSources,
)
    requires
        device_types & ALL_DEVICE_TYPES == device_types,
        screen_cast_enabled ==> resolved(sources, live) is Some,
    ensures
        still_holds(
            Some(ConsentView { device_types, clipboard_enabled, screen_cast_enabled, sources }),
            device_types,
            screen_cast_enabled,
            live,
        ),
{
}

/// A consent to some devices never holds for others, and one without the screen never for the
/// screen.
pub proof fn law_consent_does_not_spread(
    consent: ConsentView,
    device_types: u32,
    screen_cast_enabled: bool,
    live: LiveSources,
)
    requires
        still_holds(Some(consent), device_types, screen_cast_enabled, live),
    ensures
        device_types & !consent.device_types == 0,
        screen_cast_enabled ==> consent.screen_cast_enabled,
{
    let own = consent.device_types;
    assert((own & 7) & !own == 0) by (bit_vector);
}

/// A request to start asks for what the session was set up for, and the user is not asked only where the
/// consent is to the same devices and to the same use of the screen.
pub proof fn law_start_is_as_set_up(
    session: SessionData,
    remote: RemoteDesktopData,
    live: LiveSources,
)
    ensures
        ({
            let start = start_of(session, remote, live);
            &&& start.device_types == remote.device_types
            &&& start.clipboard_enabled == remote.clipboard_enabled
            &&& start.persist_mode == remote.persist_mode
            &&& start.screen_cast_enabled == remote.screen_cast_enabled
            &&& start.multiple == session.multiple
            &&& start.source_types == session.source_types
            &&& remote.restore is None ==> !start.restored
            &&& start.restored ==> (remote.restore matches Some(consent) && consent.device_types & 7
                == remote.device_types && consent.screen_cast_enabled == remote.screen_cast_enabled
                && (remote.screen_cast_enabled ==> resolved(consent.sources@, live) is Some))
            &&& !start.restored ==> (remote.restore matches Some(consent) ==> consent.device_types
                & 7 != remote.device_types || consent.screen_cast_enabled
                != remote.screen_cast_enabled || (remote.screen_cast_enabled && resolved(
                consent.sources@,
                live,
            ) is None))
        }),
{
}

/// Consent is kept as long as the user said; where the user was not asked, as long as the application
/// did.
pub proof fn law_consent_is_kept_as_the_user_said(
    start: RemoteStart,
    response: Option<PromptResponse>,
)
    ensures
        response matches Some(response) ==> granted_mode(start, Some(response))
            == response.persist_mode,
        response is None ==> granted_mode(start, response) == start.persist_mode,
{
}

/// A position on a stream is one on the desktop where the stream lies: the first stream with the number
/// says where; one without a place lies at the origin.
pub proof fn law_stream_lies_where_it_was_told(streams: Seq<(u32, StreamProps)>, i: int)
    requires
        0 <= i < streams.len(),
        forall|j: int| 0 <= j < i ==> (#[trigger] streams[j]).0 != streams[i].0,
    ensures
        ({
            let offset = offset_of(offsets_of(streams), streams[i].0);
            &&& streams[i].1.position matches Some(position) ==> offset == position
            &&& streams[i].1.position is None ==> offset == (0i32, 0i32)
        }),
    decreases streams.len(),
{
    if i > 0 {
        let rest = streams.skip(1);
        assert(streams[0].0 != streams[i].0);
        assert forall|j: int| 0 <= j < i - 1 implies (#[trigger] rest[j]).0 != rest[i - 1].0 by {
            assert(streams[j + 1].0 != streams[i].0);
        }
        law_stream_lies_where_it_was_told(rest, i - 1);
        assert(offsets_of(streams).skip(1) =~= offsets_of(rest));
    }
}

/// A stream that is not there lies at the origin.
pub proof fn law_unknown_stream_lies_at_the_origin(offsets: Seq<(u32, (i32, i32))>, stream: u32)
    requires
        forall|j: int| 0 <= j < offsets.len() ==> (#[trigger] offsets[j]).0 != stream,
    ensures
        offset_of(offsets, stream) == (0i32, 0i32),
    decreases offsets.len(),
{
    if offsets.len() > 0 {
        let rest = offsets.skip(1);
        assert(offsets[0].0 != stream);
        assert forall|j: int| 0 <= j < rest.len() implies (#[trigger] rest[j]).0 != stream by {
            assert(offsets[j + 1].0 != stream);
        }
        law_unknown_stream_lies_at_the_origin(rest, stream);
    }
}

/// A consent that comes with a request is read where its vendor and version are known, and says what was
/// granted.
pub proof fn law_consent_is_read_from_known_data(data: RestoreData<PersistedRemoteDesktop>)
    ensures
        data.vendor@ == "COSMIC"@ && data.version == 1 ==> (data.data matches Some(kept)
            ==> consent_of(Some(data)) matches Some(consent) && consent.device_types
            == kept.device_types && consent.clipboard_enabled == kept.clipboard_enabled
            && consent.screen_cast_enabled == kept.screen_cast_enabled && consent.sources
            == kept.sources@),
        data.vendor@ != "COSMIC"@ || data.version != 1 || data.data is None ==> consent_of(
            Some(data),
        ) is None,
{
}

/// The sources that consent is kept for are those of the capture, and the streams are its streams; there
/// are none where nothing was captured.
pub proof fn law_consent_is_kept_for_the_capture(capture: CaptureResult)
    ensures
        streams_of(Some(capture)) == capture.streams@,
        capture.sources matches Some(sources) ==> sources_of(Some(capture)) == sources@,
        streams_of(None).len() == 0,
        sources_of(None).outputs.len() == 0 && sources_of(None).toplevels.len() == 0,
{
}

} // verus!
