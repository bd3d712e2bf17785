//! Sessions in which an application gets the input of the user: who owns the seat, who may have it,
//! and what a session can do when.

use crate::dict::Dict;
use crate::restore::RestoreData;
use crate::text::{
    after_prefix, concat, has_prefix, pieces, split_first, split_once, starts_with, str_eq, strip_prefix,
    view_opt, views,
};
use vstd::prelude::*;

verus! {

/// The bit for keyboards.
pub const DEVICE_KEYBOARD: u32 = 1;

/// The bit for pointers.
pub const DEVICE_POINTER: u32 = 2;

/// The bits of the devices that can be captured.
pub const SUPPORTED_DEVICE_TYPES: u32 = 3;

/// How many barriers a session can set at most.
pub const MAX_BARRIERS: usize = 256;

/// The table in which permissions are kept.
pub const PERMISSION_TABLE: &'static str = "input-capture";

/// The entry of the table under which permissions are kept.
pub const PERMISSION_ID: &'static str = "keyboard-and-pointer";

/// The first part of the paths of sessions.
pub const SESSION_PREFIX: &'static str = "/org/freedesktop/portal/desktop/session/";

/// What stands before the path of an executable where it names an application.
pub const NATIVE_PREFIX: &'static str = "native-exe:";

/// An option of a request. Numbers with a fraction are given by their bits.
#[derive(Debug, Clone, Copy, PartialEq, Eq, Structural)]
pub enum OptionValue {
    Number(u32),
    Pair { x: u64, y: u64 },
    Other,
}

/// The number under a key.
pub open spec fn number_of(options: Map<Seq<char>, OptionValue>, key: Seq<char>) -> Option<u32> {
    if options.dom().contains(key) {
        match options[key] {
            OptionValue::Number(n) => Some(n),
            _ => None,
        }
    } else {
        None
    }
}

/// The pair under a key.
pub open spec fn pair_of(options: Map<Seq<char>, OptionValue>, key: Seq<char>) -> Option<(u64, u64)> {
    if options.dom().contains(key) {
        match options[key] {
            OptionValue::Pair { x, y } => Some((x, y)),
            _ => None,
        }
    } else {
        None
    }
}

/// The number under a key.
pub fn option_u32(options: &Dict<OptionValue>, key: &str) -> (r: Option<u32>)
    ensures
        r == number_of(options@, key@),
{
    match options.get(key) {
        Some(OptionValue::Number(n)) => Some(*n),
        _ => None,
    }
}

/// The pair under a key.
pub fn option_pair(options: &Dict<OptionValue>, key: &str) -> (r: Option<(u64, u64)>)
    ensures
        r == pair_of(options@, key@),
{
    match options.get(key) {
        Some(OptionValue::Pair { x, y }) => Some((*x, *y)),
        _ => None,
    }
}

/// The devices among those asked for that can be captured, if there are any.
pub open spec fn supported(asked: u32) -> Option<u32> {
    if asked & SUPPORTED_DEVICE_TYPES != 0 {
        Some(asked & SUPPORTED_DEVICE_TYPES)
    } else {
        None
    }
}

/// The devices among those asked for that can be captured, if there are any.
fn supported_devices(asked: u32) -> (r: Option<u32>)
    ensures
        r == supported(asked),
{
    let requested: u32 = asked & SUPPORTED_DEVICE_TYPES;
    if requested != 0 {
        Some(requested)
    } else {
        None
    }
}

/// The devices that are asked for and can be captured, if there are any.
pub fn requested_capabilities(options: &Dict<OptionValue>) -> (r: Option<u32>)
    ensures
        r == match number_of(options@, "capabilities"@) {
            Some(asked) => supported(asked),
            None => None,
        },
{
    match option_u32(options, "capabilities") {
        Some(asked) => supported_devices(asked),
        None => None,
    }
}

/// Devices that are granted are among those asked for, and are keyboard or pointer.
pub proof fn law_grants_no_more_than_asked(asked: u32)
    ensures
        supported(asked) matches Some(granted) ==> {
            &&& granted & asked == granted
            &&& granted & 3 == granted
            &&& 1 <= granted <= 3
        },
        supported(asked) is None <==> asked & 3 == 0,
{
    assert((asked & 3) & asked == asked & 3 && (asked & 3) & 3 == asked & 3 && asked & 3 <= 3)
        by (bit_vector);
}

/// What a session answers with: the devices that it captures.
pub fn capabilities_result(capabilities: u32) -> (r: Dict<OptionValue>)
    ensures
        r@ == Map::<Seq<char>, OptionValue>::empty().insert(
            "capabilities"@,
            OptionValue::Number(capabilities),
        ),
{
    let mut r = Dict::new();
    r.insert("capabilities", OptionValue::Number(capabilities));
    r
}

/// The seat, which one session can own.
#[derive(Debug)]
pub struct InputCapture {
    /// The session that owns the seat.
    pub session_owner: Option<String>,
}

/// The owner after a session has released what it owns.
pub open spec fn released(owner: Option<Seq<char>>, handle: Seq<char>) -> Option<Seq<char>> {
    if owner == Some(handle) {
        None
    } else {
        owner
    }
}

/// The owner after a session has claimed the seat, and whether it got it.
pub open spec fn claimed(owner: Option<Seq<char>>, handle: Seq<char>) -> (Option<Seq<char>>, bool) {
    match owner {
        Some(_) => (owner, false),
        None => (Some(handle), true),
    }
}

/// Releases the seat, if the session owns it.
pub fn release_owned_session(owner: &mut Option<String>, handle: &str)
    ensures
        view_opt(*final(owner)) == released(view_opt(*old(owner)), handle@),
{
    let owns = match owner {
        Some(current) => str_eq(current.as_str(), handle),
        None => false,
    };
    if owns {
        *owner = None;
    }
}

impl InputCapture {
    /// A seat that no session owns.
    pub fn new() -> (r: Self)
        ensures
            r.session_owner is None,
    {
        InputCapture { session_owner: None }
    }

    /// Claims the seat for a session: only one that nobody owns can be had.
    pub fn claim_session(&mut self, handle: &str) -> (r: bool)
        ensures
            (view_opt(final(self).session_owner), r) == claimed(
                view_opt(old(self).session_owner),
                handle@,
            ),
    {
        if self.session_owner.is_some() {
            return false;
        }
        self.session_owner = Some(handle.to_owned());
        true
    }
}

/// One session owns the seat at a time: another one cannot have it, and cannot release it either.
/// Once the owner has released it, the other one can.
pub proof fn law_one_seat_owner(first: Seq<char>, second: Seq<char>)
    requires
        first != second,
    ensures
        claimed(None, first) == (Some(first), true),
        claimed(Some(first), second) == (Some(first), false),
        released(Some(first), second) == Some(first),
        released(Some(first), first) is None,
        claimed(released(Some(first), first), second) == (Some(second), true),
{
}

/// What was granted to an application.
#[derive(Debug)]
pub struct StoredConsent {
    pub app_id: String,
    pub capabilities: u32,
}

/// Whether stored data are a grant of the devices to the application.
pub open spec fn grants_devices(
    data: RestoreData<StoredConsent>,
    app_id: Seq<char>,
    capabilities: u32,
) -> bool {
    data.payload() matches Some(consent) && consent.app_id@ == app_id && consent.capabilities
        == capabilities
}

/// Whether stored data are a grant of the devices to the application.
pub fn restore_matches(
    data: &RestoreData<StoredConsent>,
    app_id: &str,
    capabilities: u32,
) -> (r: bool)
    ensures
        r == grants_devices(*data, app_id@, capabilities),
{
    match data.cosmic_v1_data() {
        Some(consent) => str_eq(consent.app_id.as_str(), app_id) && consent.capabilities
            == capabilities,
        None => false,
    }
}

/// The data that say that the devices were granted to the application, and to no other one.
pub fn restore_data(app_id: &str, capabilities: u32) -> (r: RestoreData<StoredConsent>)
    ensures
        forall|other: Seq<char>, devices: u32| #[trigger]
            grants_devices(r, other, devices) <==> other == app_id@ && devices == capabilities,
{
    RestoreData::cosmic_v1(StoredConsent { app_id: app_id.to_owned(), capabilities })
}

/// Whom consent is asked for. Without a key it cannot be kept.
#[derive(Debug)]
pub struct ConsentIdentity {
    pub key: Option<String>,
    pub label: String,
}

/// Whether a character can stand in an element of a bus name.
pub open spec fn is_element_char(c: char) -> bool {
    'a' <= c <= 'z' || 'A' <= c <= 'Z' || '0' <= c <= '9' || c == '_' || c == '-'
}

/// Whether a text is an element of a bus name.
pub open spec fn is_element(element: Seq<char>, may_start_with_digit: bool) -> bool {
    &&& element.len() > 0
    &&& forall|i: int| 0 <= i < element.len() ==> is_element_char(#[trigger] element[i])
    &&& may_start_with_digit || !('0' <= element[0] <= '9')
}

/// Whether a text is made of at least two elements between dots.
pub open spec fn are_elements(text: Seq<char>, may_start_with_digit: bool) -> bool {
    let elements = pieces(text, '.');
    &&& elements.len() >= 2
    &&& forall|i: int|
        0 <= i < elements.len() ==> is_element(#[trigger] elements[i], may_start_with_digit)
}

/// Whether a text is a name on the bus: at most 255 characters, at least two elements between dots.
/// The names that the bus gives out begin with a colon, and only their elements may begin with a
/// digit.
pub open spec fn is_bus_name(name: Seq<char>) -> bool {
    &&& name.len() <= 255
    &&& match after_prefix(name, seq![':']) {
        Some(rest) => are_elements(rest, true),
        None => are_elements(name, false),
    }
}

/// Whether `zbus::names::BusName::try_from` takes a text for a name on the bus. It does so by the
/// rules of `is_bus_name`.
#[verifier::external_body]
fn is_valid_bus_name(name: &str) -> (r: bool)
    ensures
        r == is_bus_name(name@),
{
    zbus::names::BusName::try_from(name).is_ok()
}

/// A text with dots in the place of underscores.
pub open spec fn with_dots(text: Seq<char>) -> Seq<char> {
    text.map_values(
        |c: char|
            if c == '_' {
                '.'
            } else {
                c
            },
    )
}

/// A text with dots in the place of underscores.
fn put_dots(text: &str) -> (r: String)
    ensures
        r@ == with_dots(text@),
{
    let mut r = String::new();
    for c in it: text.chars()
        invariant
            it.seq() == text@,
            r@ == with_dots(text@).take(it.index() as int),
    {
        let ghost i = it.index() as int;
        let ghost before = r@;
        if c == '_' {
            r.push('.');
        } else {
            r.push(c);
        }
        proof {
            assert(with_dots(text@).take(i + 1) =~= before.push(with_dots(text@)[i]));
        }
    }
    proof {
        assert(with_dots(text@).take(text@.len() as int) =~= with_dots(text@));
    }
    r
}

/// The name on the bus of the application that a session belongs to: the first of two parts that the
/// path of the session has below the path of sessions.
pub open spec fn sender_of(path: Seq<char>) -> Option<Seq<char>> {
    match after_prefix(path, SESSION_PREFIX@) {
        Some(rest) => match split_first(rest, '/') {
            Some((sender, token)) => if sender.len() > 0 && token.len() > 0 && is_bus_name(
                seq![':'] + with_dots(sender),
            ) {
                Some(seq![':'] + with_dots(sender))
            } else {
                None
            },
            None => None,
        },
        None => None,
    }
}

/// The name on the bus of the application that a session belongs to.
pub fn native_sender_from_session_path(path: &str) -> (r: Option<String>)
    ensures
        view_opt(r) == sender_of(path@),
{
    let suffix = match strip_prefix(path, SESSION_PREFIX) {
        Some(suffix) => suffix,
        None => {
            return None;
        },
    };
    match split_once(suffix.as_str(), '/') {
        Some((sender, token)) => {
            if sender.as_str().unicode_len() == 0 || token.as_str().unicode_len() == 0 {
                return None;
            }
            let dotted = put_dots(sender.as_str());
            let name = concat(":", dotted.as_str());
            proof {
                reveal_strlit(":");
                assert(":"@ =~= seq![':']);
            }
            if is_valid_bus_name(name.as_str()) {
                Some(name)
            } else {
                None
            }
        },
        None => None,
    }
}

/// What is known of a file or a directory: who owns it, and the bits of its mode.
#[derive(Debug, Clone, Copy, PartialEq, Eq, Structural)]
pub struct Ownership {
    pub uid: u32,
    pub mode: u32,
}

/// Whether only the system can change a file or a directory.
pub open spec fn is_system_owned(part: Ownership) -> bool {
    part.uid == 0 && part.mode & 0o022 == 0
}

/// Whether only the system can change a file: neither it nor a directory above it belongs to a user
/// or can be written by a group or by others.
pub fn system_owned_executable(parts: &Vec<Ownership>) -> (r: bool)
    ensures
        r <==> forall|i: int| 0 <= i < parts@.len() ==> is_system_owned(#[trigger] parts@[i]),
{
    let mut i: usize = 0;
    while i < parts.len()
        invariant
            i <= parts@.len(),
            forall|j: int| 0 <= j < i ==> is_system_owned(#[trigger] parts@[j]),
        decreases parts@.len() - i,
    {
        if parts[i].uid != 0 || parts[i].mode & 0o022 != 0 {
            assert(!is_system_owned(parts@[i as int]));
            return false;
        }
        i = i + 1;
    }
    true
}

/// Whether consent is asked for an executable.
pub open spec fn is_native(identity: ConsentIdentity) -> bool {
    identity.key matches Some(key) && has_prefix(key@, NATIVE_PREFIX@)
}

/// Whether the user is offered to allow it for good: where the application wants it, and for
/// executables, which do not say.
pub fn offer_persistent_choice(requested_mode: Option<u32>, identity: &ConsentIdentity) -> (r: bool)
    ensures
        r <==> requested_mode == Some(2u32) || (requested_mode is None && is_native(*identity)),
{
    match requested_mode {
        Some(mode) => mode == 2,
        None => match &identity.key {
            Some(key) => starts_with(key.as_str(), NATIVE_PREFIX),
            None => false,
        },
    }
}

/// Whom consent is asked for: the application by its identifier; one without an identifier by its
/// executable, if only the system can change that; otherwise an unknown one.
pub fn identity_for(app_id: &str, executable: Option<&str>, unknown: &str) -> (r: ConsentIdentity)
    ensures
        if app_id@.len() > 0 {
            view_opt(r.key) == Some(app_id@) && r.label@ == app_id@
        } else {
            match executable {
                Some(path) => view_opt(r.key) == Some(NATIVE_PREFIX@ + path@) && r.label@ == path@,
                None => r.key is None && r.label@ == unknown@,
            }
        },
{
    if app_id.unicode_len() > 0 {
        return ConsentIdentity { key: Some(app_id.to_owned()), label: app_id.to_owned() };
    }
    match executable {
        Some(path) => ConsentIdentity {
            key: Some(concat(NATIVE_PREFIX, path)),
            label: path.to_owned(),
        },
        None => ConsentIdentity { key: None, label: unknown.to_owned() },
    }
}

/// Whether a call comes from the owner of a name on the bus.
pub fn called_by_portal_frontend(sender: Option<&str>, owner: Option<&str>) -> (r: bool)
    ensures
        r <==> sender is Some && owner is Some && sender->0@ == owner->0@,
{
    match (sender, owner) {
        (Some(sender), Some(owner)) => str_eq(sender, owner),
        _ => false,
    }
}

/// Whether stored permissions allow it always.
pub fn always_allowed(permissions: &Vec<String>) -> (r: bool)
    ensures
        r == views(permissions@).contains("yes"@),
{
    let ghost all = views(permissions@);
    let mut i: usize = 0;
    while i < permissions.len()
        invariant
            i <= permissions@.len(),
            all == views(permissions@),
            forall|j: int| 0 <= j < i ==> (#[trigger] all[j]) != "yes"@,
        decreases permissions@.len() - i,
    {
        assert(all[i as int] == permissions@[i as int]@);
        if str_eq(permissions[i].as_str(), "yes") {
            return true;
        }
        i = i + 1;
    }
    false
}

/// What the user decides.
#[derive(Debug, Clone, Copy, PartialEq, Eq, Structural)]
pub enum ConfirmationResult {
    Allow,
    AlwaysAllow,
    Deny,
}

/// How far it is decided whether an application may capture the input.
#[derive(Debug, Clone, Copy, PartialEq, Eq, Structural)]
pub enum Consent {
    /// The application came with a grant: the store is asked whether it still holds.
    CheckRestored,
    /// The store is asked whether the application is always allowed.
    CheckStored,
    /// The user is asked, and may be offered to allow it always.
    AskUser { always_allow: bool },
    /// It is decided.
    Decided(ConfirmationResult),
}

/// The first question. An application without a key is not in the store.
pub open spec fn first_question(has_key: bool, came_with_grant: bool) -> Consent {
    if !has_key {
        Consent::AskUser { always_allow: false }
    } else if came_with_grant {
        Consent::CheckRestored
    } else {
        Consent::CheckStored
    }
}

/// What follows from the answer of the store, for an application with a key.
pub open spec fn store_answered(consent: Consent, allowed: bool, allow_always: bool) -> Consent {
    match consent {
        Consent::CheckRestored => if allowed {
            Consent::Decided(ConfirmationResult::Allow)
        } else {
            Consent::CheckStored
        },
        Consent::CheckStored => if allowed {
            Consent::Decided(ConfirmationResult::Allow)
        } else {
            Consent::AskUser { always_allow: allow_always }
        },
        other => other,
    }
}

/// What follows from the answer of the user.
pub open spec fn user_answered(consent: Consent, result: ConfirmationResult) -> Consent {
    match consent {
        Consent::AskUser { .. } => Consent::Decided(result),
        other => other,
    }
}

/// The first question that is asked before an application may capture the input.
pub fn begin_consent(
    identity: &ConsentIdentity,
    grant: &Option<RestoreData<StoredConsent>>,
    capabilities: u32,
) -> (r: Consent)
    ensures
        r == first_question(
            identity.key is Some,
            identity.key is Some && grant is Some && grants_devices(
                grant->0,
                identity.key->0@,
                capabilities,
            ),
        ),
{
    match &identity.key {
        Some(key) => {
            let came_with_grant = match grant {
                Some(data) => restore_matches(data, key.as_str(), capabilities),
                None => false,
            };
            if came_with_grant {
                Consent::CheckRestored
            } else {
                Consent::CheckStored
            }
        },
        None => Consent::AskUser { always_allow: false },
    }
}

impl Consent {
    /// Takes the answer of the store.
    pub fn on_store(self, allowed: bool, allow_always: bool) -> (r: Consent)
        ensures
            r == store_answered(self, allowed, allow_always),
    {
        match self {
            Consent::CheckRestored => if allowed {
                Consent::Decided(ConfirmationResult::Allow)
            } else {
                Consent::CheckStored
            },
            Consent::CheckStored => if allowed {
                Consent::Decided(ConfirmationResult::Allow)
            } else {
                Consent::AskUser { always_allow: allow_always }
            },
            other => other,
        }
    }

    /// Takes the answer of the user.
    pub fn on_user(self, result: ConfirmationResult) -> (r: Consent)
        ensures
            r == user_answered(self, result),
    {
        match self {
            Consent::AskUser { .. } => Consent::Decided(result),
            other => other,
        }
    }
}

/// Where the store does not allow it, the user decides: a grant that an application comes with is
/// never enough.
pub proof fn law_grant_alone_is_not_enough(
    has_key: bool,
    came_with_grant: bool,
    allow_always: bool,
    result: ConfirmationResult,
)
    ensures
        user_answered(
            store_answered(
                store_answered(first_question(has_key, came_with_grant), false, allow_always),
                false,
                allow_always,
            ),
            result,
        ) == Consent::Decided(result),
{
}

/// The user is offered to allow it always only where that can be kept.
pub proof fn law_always_needs_a_key(came_with_grant: bool, allowed: bool, allow_always: bool)
    ensures
        store_answered(first_question(false, came_with_grant), allowed, allow_always) == (
        Consent::AskUser { always_allow: false }),
{
}

/// What a session has come to.
#[derive(Debug, Clone, Copy, PartialEq, Eq, Structural)]
pub struct InputCaptureData {
    pub device_types: u32,
    pub started: bool,
    pub connected: bool,
}

/// What became of a decision.
#[derive(Debug, Clone, Copy, PartialEq, Eq, Structural)]
pub enum Grant {
    /// The user denied it.
    Cancelled,
    /// Another session owns the seat.
    SeatTaken,
    /// The session has started. The decision is kept in the store, if that is wanted.
    Started { remember: bool },
}

/// What a client asks for when a session starts.
#[derive(Debug)]
pub struct StartOptions {
    pub capabilities: u32,
    pub restore_data: Option<RestoreData<StoredConsent>>,
    pub persist_mode: Option<u32>,
}

/// What a client gets when a session has started.
#[derive(Debug)]
pub struct StartResult {
    pub capabilities: u32,
    pub clipboard_enabled: bool,
    pub restore_data: Option<RestoreData<StoredConsent>>,
}

/// The devices of a session that is to start: none where the call does not come from the frontend,
/// no device can be captured or the mode is not known.
pub fn check_start(from_frontend: bool, options: &StartOptions) -> (r: Option<u32>)
    ensures
        r == if from_frontend && (options.persist_mode matches Some(mode) ==> mode <= 2) {
            supported(options.capabilities)
        } else {
            None
        },
{
    if !from_frontend {
        return None;
    }
    let mode: u32 = match options.persist_mode {
        Some(mode) => mode,
        None => 0,
    };
    if mode > 2 {
        return None;
    }
    supported_devices(options.capabilities)
}

/// The devices of a session that is to be created: none where the call does not come from the
/// frontend or no device can be captured.
pub fn check_create(from_frontend: bool, options: &Dict<OptionValue>) -> (r: Option<u32>)
    ensures
        r == if from_frontend {
            match number_of(options@, "capabilities"@) {
                Some(asked) => supported(asked),
                None => None,
            }
        } else {
            None
        },
{
    if from_frontend {
        requested_capabilities(options)
    } else {
        None
    }
}

/// The state and the owner of the seat after a decision, and what became of it.
pub open spec fn after_decision(
    data: InputCaptureData,
    owner: Option<Seq<char>>,
    handle: Seq<char>,
    requested: u32,
    decision: ConfirmationResult,
    has_key: bool,
) -> (InputCaptureData, Option<Seq<char>>, Grant) {
    if decision == ConfirmationResult::Deny {
        (data, owner, Grant::Cancelled)
    } else if owner is Some {
        (data, owner, Grant::SeatTaken)
    } else {
        (
            InputCaptureData { device_types: requested, started: true, connected: data.connected },
            Some(handle),
            Grant::Started {
                remember: decision == ConfirmationResult::AlwaysAllow && has_key,
            },
        )
    }
}

impl InputCaptureData {
    /// A session that has not started.
    pub fn new() -> (r: Self)
        ensures
            r == (InputCaptureData { device_types: 0, started: false, connected: false }),
    {
        InputCaptureData { device_types: 0, started: false, connected: false }
    }

    /// Starts the session as it was decided: where it was not denied, and no other session owns the
    /// seat.
    pub fn on_decision(
        &mut self,
        seat: &mut InputCapture,
        handle: &str,
        requested: u32,
        decision: ConfirmationResult,
        identity: &ConsentIdentity,
    ) -> (r: Grant)
        ensures
            (*final(self), view_opt(final(seat).session_owner), r) == after_decision(
                *old(self),
                view_opt(old(seat).session_owner),
                handle@,
                requested,
                decision,
                identity.key is Some,
            ),
    {
        match decision {
            ConfirmationResult::Deny => {
                return Grant::Cancelled;
            },
            _ => {},
        }
        if !seat.claim_session(handle) {
            return Grant::SeatTaken;
        }
        self.device_types = requested;
        self.started = true;
        let always = match decision {
            ConfirmationResult::AlwaysAllow => true,
            _ => false,
        };
        Grant::Started { remember: always && identity.key.is_some() }
    }

    /// Whether the session can start: once.
    pub fn can_start(&self) -> (r: bool)
        ensures
            r == !self.started,
    {
        !self.started
    }

    /// Whether the zones can be read: once the session has started, connected or not.
    pub fn can_get_zones(&self) -> (r: bool)
        ensures
            r == self.started,
    {
        self.started
    }

    /// Whether so many barriers can be set: once the session is connected.
    pub fn can_set_barriers(&self, count: usize) -> (r: bool)
        ensures
            r == (count <= MAX_BARRIERS && self.started && self.connected),
    {
        count <= MAX_BARRIERS && self.started && self.connected
    }

    /// Whether the session can be enabled: once it is connected.
    pub fn can_enable(&self) -> (r: bool)
        ensures
            r == (self.started && self.connected),
    {
        self.started && self.connected
    }

    /// Whether the session can be disabled or its input be released: once it has started.
    pub fn can_release(&self) -> (r: bool)
        ensures
            r == self.started,
    {
        self.started
    }

    /// Whether the session can be connected: once.
    pub fn can_connect(&self) -> (r: bool)
        ensures
            r == (self.started && !self.connected),
    {
        self.started && !self.connected
    }

    /// Takes notice that the session is connected.
    pub fn set_connected(&mut self)
        ensures
            *final(self) == (InputCaptureData { connected: true, ..*old(self) }),
    {
        self.connected = true;
    }
}

/// A session starts only while it owns the seat, and one that starts has not taken the seat from
/// another.
pub proof fn law_started_session_owns_seat(
    data: InputCaptureData,
    owner: Option<Seq<char>>,
    handle: Seq<char>,
    requested: u32,
    decision: ConfirmationResult,
    has_key: bool,
)
    requires
        !data.started,
    ensures
        ({
            let (new, new_owner, grant) = after_decision(
                data,
                owner,
                handle,
                requested,
                decision,
                has_key,
            );
            &&& new.started <==> grant is Started
            &&& new.started ==> owner is None && new_owner == Some(handle)
            &&& !new.started ==> new == data && new_owner == owner
            &&& decision == ConfirmationResult::Deny ==> !new.started
        }),
{
}

/// The key under which the store is asked once more before a grant is handed out: only where the
/// application wants its grant to stay until it is revoked.
pub fn persist_key(options: &StartOptions, identity: &ConsentIdentity) -> (r: Option<String>)
    ensures
        r == if options.persist_mode == Some(2u32) {
            identity.key
        } else {
            None
        },
{
    match options.persist_mode {
        Some(2) => identity.key.clone(),
        _ => None,
    }
}

/// The answer when a session has started: with a grant where the store still allows it under the
/// key.
pub fn start_result(requested: u32, key: Option<&str>, allowed: bool) -> (r: StartResult)
    ensures
        r.capabilities == requested,
        !r.clipboard_enabled,
        match r.restore_data {
            Some(data) => {
                &&& allowed
                &&& key is Some
                &&& forall|app: Seq<char>, devices: u32| #[trigger]
                    grants_devices(data, app, devices) <==> app == key->0@ && devices == requested
            },
            None => !allowed || key is None,
        },
{
    let restore = match key {
        Some(key) => if allowed {
            Some(restore_data(key, requested))
        } else {
            None
        },
        None => None,
    };
    StartResult { capabilities: requested, clipboard_enabled: false, restore_data: restore }
}

/// What the compositor tells of a session. Positions are given by the bits of their coordinates.
#[derive(Debug)]
pub enum CompSignal {
    Activated { session_handle: String, activation_id: u32, barrier_id: u32, x: u64, y: u64 },
    Deactivated { session_handle: String, activation_id: u32, x: u64, y: u64 },
    Disabled { session_handle: String },
    ZonesChanged { session_handle: String, zone_set: u32 },
}

/// The options with which a signal is passed on.
pub open spec fn signal_options(signal: CompSignal) -> Map<Seq<char>, OptionValue> {
    match signal {
        CompSignal::Activated { session_handle, activation_id, barrier_id, x, y } => Map::empty().insert(
            "activation_id"@,
            OptionValue::Number(activation_id),
        ).insert("barrier_id"@, OptionValue::Number(barrier_id)).insert(
            "cursor_position"@,
            OptionValue::Pair { x, y },
        ),
        CompSignal::Deactivated { session_handle, activation_id, x, y } => Map::empty().insert(
            "activation_id"@,
            OptionValue::Number(activation_id),
        ).insert("cursor_position"@, OptionValue::Pair { x, y }),
        CompSignal::Disabled { session_handle } => Map::empty(),
        CompSignal::ZonesChanged { session_handle, zone_set } => Map::empty().insert(
            "zone_set"@,
            OptionValue::Number(zone_set),
        ),
    }
}

/// The options with which a signal is passed on.
pub fn forward_signal(signal: &CompSignal) -> (r: Dict<OptionValue>)
    ensures
        r@ == signal_options(*signal),
{
    let mut options = Dict::new();
    match signal {
        CompSignal::Activated { activation_id, barrier_id, x, y, .. } => {
            options.insert("activation_id", OptionValue::Number(*activation_id));
            options.insert("barrier_id", OptionValue::Number(*barrier_id));
            options.insert("cursor_position", OptionValue::Pair { x: *x, y: *y });
        },
        CompSignal::Deactivated { activation_id, x, y, .. } => {
            options.insert("activation_id", OptionValue::Number(*activation_id));
            options.insert("cursor_position", OptionValue::Pair { x: *x, y: *y });
        },
        CompSignal::Disabled { .. } => {},
        CompSignal::ZonesChanged { zone_set, .. } => {
            options.insert("zone_set", OptionValue::Number(*zone_set));
        },
    }
    options
}

/// A session that was granted captures the devices that were asked for; the decision is remembered where
/// it was to be for good and there is a key for it. One that was denied is cancelled.
pub proof fn law_decision_is_carried_out(
    data: InputCaptureData,
    owner: Option<Seq<char>>,
    handle: Seq<char>,
    requested: u32,
    decision: ConfirmationResult,
    has_key: bool,
)
    ensures
        ({
            let (new, _, grant) = after_decision(data, owner, handle, requested, decision, has_key);
            &&& decision is Deny ==> grant is Cancelled
            &&& !(decision is Deny) && owner is Some ==> grant is SeatTaken
            &&& !(decision is Deny) && owner is None ==> new.started && new.device_types == requested
                && (grant matches Grant::Started { remember } && (remember
                <==> decision is AlwaysAllow && has_key))
            &&& new.connected == data.connected
        }),
{
}

/// The store decides where it allows it, so that the user is not asked; a grant that came with the
/// request only has the store asked once more.
pub proof fn law_store_spares_the_question(allow_always: bool, came_with_grant: bool)
    ensures
        store_answered(first_question(true, came_with_grant), true, allow_always)
            == Consent::Decided(ConfirmationResult::Allow),
        first_question(true, came_with_grant) is CheckRestored <==> came_with_grant,
        store_answered(first_question(true, false), false, allow_always) == (Consent::AskUser {
            always_allow: allow_always,
        }),
        store_answered(first_question(true, true), false, allow_always) is CheckStored,
        first_question(false, came_with_grant) == (Consent::AskUser { always_allow: false }),
{
}

/// What the user says is what is decided.
pub proof fn law_user_decides(always_allow: bool, result: ConfirmationResult)
    ensures
        user_answered(Consent::AskUser { always_allow }, result) == Consent::Decided(result),
{
}

/// A grant is one to the application and the devices that it names, of the vendor and version that are
/// known.
pub proof fn law_grant_is_to_its_application(
    data: RestoreData<StoredConsent>,
    app_id: Seq<char>,
    capabilities: u32,
)
    ensures
        grants_devices(data, app_id, capabilities) <==> data.vendor@ == "COSMIC"@ && data.version == 1
            && (data.data matches Some(consent) && consent.app_id@ == app_id && consent.capabilities
            == capabilities),
{
}

/// What the compositor tells of a session is passed on with all its numbers, each under its own name.
pub proof fn law_signals_are_passed_on_whole(signal: CompSignal)
    ensures
        ({
            let told = signal_options(signal);
            &&& signal matches CompSignal::Activated {
                session_handle,
                activation_id,
                barrier_id,
                x,
                y,
            } ==> number_of(told, "activation_id"@) == Some(activation_id) && number_of(
                told,
                "barrier_id"@,
            ) == Some(barrier_id) && pair_of(told, "cursor_position"@) == Some((x, y))
            &&& signal matches CompSignal::Deactivated { session_handle, activation_id, x, y }
                ==> number_of(told, "activation_id"@) == Some(activation_id) && pair_of(
                told,
                "cursor_position"@,
            ) == Some((x, y)) && number_of(told, "barrier_id"@) is None
            &&& signal is Disabled ==> number_of(told, "activation_id"@) is None && number_of(
                told,
                "zone_set"@,
            ) is None
            &&& signal matches CompSignal::ZonesChanged { session_handle, zone_set } ==> number_of(
                told,
                "zone_set"@,
            ) == Some(zone_set)
        }),
{
    reveal_strlit("activation_id");
    reveal_strlit("barrier_id");
    reveal_strlit("cursor_position");
    reveal_strlit("zone_set");
    assert("activation_id"@.len() == 13 && "barrier_id"@.len() == 10);
    assert("cursor_position"@.len() == 15 && "zone_set"@.len() == 8);
}

/// A file is the system's own where root owns it and neither its group nor others can write to it.
pub proof fn law_own_files_cannot_be_changed(part: Ownership)
    ensures
        is_system_owned(part) ==> part.uid == 0 && part.mode & 0o020 == 0 && part.mode & 0o002 == 0,
        part.uid == 0 && part.mode & 0o020 == 0 && part.mode & 0o002 == 0 ==> is_system_owned(part),
{
    let mode = part.mode;
    assert(mode & 0o022 == 0 <==> mode & 0o020 == 0 && mode & 0o002 == 0) by (bit_vector);
}

/// The application that a session belongs to is told by the path of the session: its name on the bus has
/// dots where the path has underscores.
pub proof fn law_path_tells_the_sender(path: Seq<char>)
    ensures
        sender_of(path) matches Some(sender) ==> {
            &&& has_prefix(path, "/org/freedesktop/portal/desktop/session/"@)
            &&& sender.len() > 1
            &&& sender[0] == ':'
            &&& is_bus_name(sender)
            &&& forall|i: int| 0 <= i < sender.len() ==> #[trigger] sender[i] != '_'
        },
{
}

} // verus!
