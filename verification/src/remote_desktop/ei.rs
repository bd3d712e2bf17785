//! Input that is sent to the compositor for an application.

use crate::remote_desktop::{DEVICE_KEYBOARD, DEVICE_POINTER, DEVICE_TOUCHSCREEN};
use vstd::prelude::*;

verus! {

/// What a device can do.
#[derive(Debug, Clone, Copy, PartialEq, Eq, Structural)]
pub enum DeviceCapability {
    Pointer,
    PointerAbsolute,
    Keyboard,
    Touch,
    Scroll,
    Button,
    Text,
}

/// What devices can do.
#[derive(Debug, Clone, Copy, PartialEq, Eq, Structural)]
pub struct Capabilities {
    pub pointer: bool,
    pub pointer_absolute: bool,
    pub keyboard: bool,
    pub touch: bool,
    pub scroll: bool,
    pub button: bool,
    pub text: bool,
}

impl Capabilities {
    /// Whether something is among what devices can do.
    pub open spec fn spec_has(self, capability: DeviceCapability) -> bool {
        match capability {
            DeviceCapability::Pointer => self.pointer,
            DeviceCapability::PointerAbsolute => self.pointer_absolute,
            DeviceCapability::Keyboard => self.keyboard,
            DeviceCapability::Touch => self.touch,
            DeviceCapability::Scroll => self.scroll,
            DeviceCapability::Button => self.button,
            DeviceCapability::Text => self.text,
        }
    }

    /// Whether something is among what devices can do.
    pub fn has_capability(&self, capability: DeviceCapability) -> (r: bool)
        ensures
            r == self.spec_has(capability),
    {
        match capability {
            DeviceCapability::Pointer => self.pointer,
            DeviceCapability::PointerAbsolute => self.pointer_absolute,
            DeviceCapability::Keyboard => self.keyboard,
            DeviceCapability::Touch => self.touch,
            DeviceCapability::Scroll => self.scroll,
            DeviceCapability::Button => self.button,
            DeviceCapability::Text => self.text,
        }
    }
}

/// What is needed for devices: a keyboard types keys and text, a pointer moves, presses and scrolls.
pub fn capabilities_for(device_types: u32) -> (r: Capabilities)
    ensures
        r.keyboard == (device_types & DEVICE_KEYBOARD != 0),
        r.text == (device_types & DEVICE_KEYBOARD != 0),
        r.pointer == (device_types & DEVICE_POINTER != 0),
        r.pointer_absolute == (device_types & DEVICE_POINTER != 0),
        r.button == (device_types & DEVICE_POINTER != 0),
        r.scroll == (device_types & DEVICE_POINTER != 0),
        r.touch == (device_types & DEVICE_TOUCHSCREEN != 0),
        r.keyboard <==> device_types & 1 != 0,
        r.pointer <==> device_types & 2 != 0,
        r.touch <==> device_types & 4 != 0,
{
    let keyboard = device_types & DEVICE_KEYBOARD != 0;
    let pointer = device_types & DEVICE_POINTER != 0;
    let touch = device_types & DEVICE_TOUCHSCREEN != 0;
    Capabilities {
        pointer,
        pointer_absolute: pointer,
        keyboard,
        touch,
        scroll: pointer,
        button: pointer,
        text: keyboard,
    }
}

/// A device of the compositor.
#[derive(Debug, Clone, Copy, PartialEq, Eq, Structural)]
pub struct DeviceState {
    /// The number by which the device is told from others.
    pub id: u64,
    pub capabilities: Capabilities,
    /// Whether input can be sent through the device.
    pub emulating: bool,
    /// The number of the next stretch of input.
    pub sequence: u32,
}

/// What the compositor tells.
#[derive(Debug, Clone, Copy, PartialEq, Eq, Structural)]
pub enum EiEvent {
    SeatAdded,
    DeviceAdded { id: u64, capabilities: Capabilities },
    DeviceResumed(u64),
    DevicePaused(u64),
    DeviceRemoved(u64),
    Other,
}

/// What follows from what the compositor tells.
#[derive(Debug, Clone, Copy, PartialEq, Eq, Structural)]
pub enum EiEffect {
    Nothing,
    /// The seat is asked for these capabilities.
    Bind(Capabilities),
    /// Input begins through the device, with the number of the stretch.
    StartEmulating { id: u64, sequence: u32 },
}

/// The devices through which input can be sent.
#[derive(Debug)]
pub struct State {
    pub caps: Capabilities,
    pub devices: Vec<DeviceState>,
}

/// Whether each device is there once.
pub open spec fn distinct(devices: Seq<DeviceState>) -> bool {
    forall|i: int, j: int|
        #![trigger devices[i], devices[j]]
        0 <= i < j < devices.len() ==> devices[i].id != devices[j].id
}

/// The devices, by number.
pub open spec fn by_id(devices: Seq<DeviceState>) -> Map<u64, DeviceState>
    decreases devices.len(),
{
    if devices.len() == 0 {
        Map::empty()
    } else {
        by_id(devices.drop_last()).insert(devices.last().id, devices.last())
    }
}

/// A device that is there is found by its number.
proof fn lemma_by_id(devices: Seq<DeviceState>, i: int)
    requires
        distinct(devices),
        0 <= i < devices.len(),
    ensures
        by_id(devices).dom().contains(devices[i].id),
        by_id(devices)[devices[i].id] == devices[i],
    decreases devices.len(),
{
    if i < devices.len() - 1 {
        let init = devices.drop_last();
        assert(distinct(init)) by {
            assert forall|a: int, b: int|
                #![trigger init[a], init[b]]
                0 <= a < b < init.len() implies init[a].id != init[b].id by {
                assert(devices[a].id != devices[b].id);
            }
        }
        lemma_by_id(init, i);
        assert(devices[i].id != devices[devices.len() - 1].id);
    }
}

/// A device that is not there is not found.
proof fn lemma_by_id_absent(devices: Seq<DeviceState>, id: u64)
    requires
        forall|i: int| 0 <= i < devices.len() ==> (#[trigger] devices[i]).id != id,
    ensures
        !by_id(devices).dom().contains(id),
    decreases devices.len(),
{
    if devices.len() > 0 {
        let init = devices.drop_last();
        assert forall|i: int| 0 <= i < init.len() implies (#[trigger] init[i]).id != id by {
            assert(devices[i].id != id);
        }
        lemma_by_id_absent(init, id);
        assert(devices[devices.len() - 1].id != id);
    }
}

/// A device that changes changes in the map alone.
proof fn lemma_by_id_update(devices: Seq<DeviceState>, i: int, device: DeviceState)
    requires
        distinct(devices),
        0 <= i < devices.len(),
        device.id == devices[i].id,
    ensures
        distinct(devices.update(i, device)),
        by_id(devices.update(i, device)) == by_id(devices).insert(device.id, device),
    decreases devices.len(),
{
    let new = devices.update(i, device);
    assert forall|a: int, b: int|
        #![trigger new[a], new[b]]
        0 <= a < b < new.len() implies new[a].id != new[b].id by {
        assert(devices[a].id != devices[b].id);
    }
    let init = devices.drop_last();
    if i < init.len() {
        assert forall|a: int, b: int|
            #![trigger init[a], init[b]]
            0 <= a < b < init.len() implies init[a].id != init[b].id by {
            assert(devices[a].id != devices[b].id);
        }
        lemma_by_id_update(init, i, device);
        assert(new.drop_last() =~= init.update(i, device));
        assert(devices[i].id != devices[devices.len() - 1].id);
        assert(by_id(new) =~= by_id(devices).insert(device.id, device));
    } else {
        assert(new.drop_last() =~= init);
        assert(by_id(new) =~= by_id(devices).insert(device.id, device));
    }
}

/// A device that goes goes from the map alone.
proof fn lemma_by_id_remove(devices: Seq<DeviceState>, i: int)
    requires
        distinct(devices),
        0 <= i < devices.len(),
    ensures
        distinct(devices.remove(i)),
        by_id(devices.remove(i)) == by_id(devices).remove(devices[i].id),
    decreases devices.len(),
{
    let new = devices.remove(i);
    assert forall|a: int, b: int|
        #![trigger new[a], new[b]]
        0 <= a < b < new.len() implies new[a].id != new[b].id by {
        let c = if a < i {
            a
        } else {
            a + 1
        };
        let d = if b < i {
            b
        } else {
            b + 1
        };
        assert(devices[c].id != devices[d].id);
    }
    let init = devices.drop_last();
    assert forall|a: int, b: int|
        #![trigger init[a], init[b]]
        0 <= a < b < init.len() implies init[a].id != init[b].id by {
        assert(devices[a].id != devices[b].id);
    }
    if i < init.len() {
        lemma_by_id_remove(init, i);
        assert(new.drop_last() =~= init.remove(i));
        assert(devices[i].id != devices[devices.len() - 1].id);
        assert(by_id(new) =~= by_id(devices).remove(devices[i].id));
    } else {
        assert(new =~= init);
        assert forall|a: int| 0 <= a < init.len() implies (#[trigger] init[a]).id != devices[i].id by {
            assert(devices[a].id != devices[i].id);
        }
        lemma_by_id_absent(init, devices[i].id);
        assert(by_id(new) =~= by_id(devices).remove(devices[i].id));
    }
}

/// The devices and what follows after the compositor has told something.
pub open spec fn handled(
    caps: Capabilities,
    devices: Map<u64, DeviceState>,
    event: EiEvent,
) -> (Map<u64, DeviceState>, EiEffect) {
    match event {
        EiEvent::SeatAdded => (devices, EiEffect::Bind(caps)),
        EiEvent::DeviceAdded { id, capabilities } => (
            devices.insert(id, DeviceState { id, capabilities, emulating: false, sequence: 0 }),
            EiEffect::Nothing,
        ),
        EiEvent::DeviceResumed(id) => if devices.dom().contains(id) {
            (
                devices.insert(
                    id,
                    DeviceState {
                        emulating: true,
                        sequence: ((devices[id].sequence + 1) % 0x1_0000_0000) as u32,
                        ..devices[id]
                    },
                ),
                EiEffect::StartEmulating { id, sequence: devices[id].sequence },
            )
        } else {
            (devices, EiEffect::Nothing)
        },
        EiEvent::DevicePaused(id) => if devices.dom().contains(id) {
            (
                devices.insert(id, DeviceState { emulating: false, ..devices[id] }),
                EiEffect::Nothing,
            )
        } else {
            (devices, EiEffect::Nothing)
        },
        EiEvent::DeviceRemoved(id) => (devices.remove(id), EiEffect::Nothing),
        EiEvent::Other => (devices, EiEffect::Nothing),
    }
}

impl State {
    /// No device is there.
    pub fn new(caps: Capabilities) -> (r: Self)
        ensures
            r.caps == caps,
            r.devices@ == Seq::<DeviceState>::empty(),
            r.wf(),
    {
        State { caps, devices: Vec::new() }
    }

    /// Each device is there once.
    pub open spec fn wf(self) -> bool {
        distinct(self.devices@)
    }

    /// The position of a device.
    fn find(&self, id: u64) -> (r: Option<usize>)
        ensures
            match r {
                Some(i) => i < self.devices@.len() && self.devices@[i as int].id == id,
                None => forall|j: int|
                    0 <= j < self.devices@.len() ==> (#[trigger] self.devices@[j]).id != id,
            },
    {
        let mut i: usize = 0;
        while i < self.devices.len()
            invariant
                i <= self.devices@.len(),
                forall|j: int| 0 <= j < i ==> (#[trigger] self.devices@[j]).id != id,
            decreases self.devices@.len() - i,
        {
            if self.devices[i].id == id {
                return Some(i);
            }
            i = i + 1;
        }
        None
    }

    /// Takes notice of what the compositor tells.
    pub fn handle_event(&mut self, event: EiEvent) -> (r: EiEffect)
        requires
            old(self).wf(),
        ensures
            final(self).wf(),
            final(self).caps == old(self).caps,
            (by_id(final(self).devices@), r) == handled(
                old(self).caps,
                by_id(old(self).devices@),
                event,
            ),
    {
        let ghost before = self.devices@;
        match event {
            EiEvent::SeatAdded => EiEffect::Bind(self.caps),
            EiEvent::DeviceAdded { id, capabilities } => {
                let device = DeviceState { id, capabilities, emulating: false, sequence: 0 };
                match self.find(id) {
                    Some(i) => {
                        proof {
                            lemma_by_id_update(before, i as int, device);
                        }
                        self.devices[i] = device;
                    },
                    None => {
                        self.devices.push(device);
                        proof {
                            assert(self.devices@.drop_last() =~= before);
                        }
                    },
                }
                EiEffect::Nothing
            },
            EiEvent::DeviceResumed(id) => match self.find(id) {
                Some(i) => {
                    let device = self.devices[i];
                    let next = DeviceState {
                        emulating: true,
                        sequence: device.sequence.wrapping_add(1),
                        ..device
                    };
                    proof {
                        lemma_by_id(before, i as int);
                        lemma_by_id_update(before, i as int, next);
                    }
                    self.devices[i] = next;
                    EiEffect::StartEmulating { id, sequence: device.sequence }
                },
                None => {
                    proof {
                        lemma_by_id_absent(before, id);
                    }
                    EiEffect::Nothing
                },
            },
            EiEvent::DevicePaused(id) => {
                match self.find(id) {
                    Some(i) => {
                        let next = DeviceState { emulating: false, ..self.devices[i] };
                        proof {
                            lemma_by_id(before, i as int);
                            lemma_by_id_update(before, i as int, next);
                        }
                        self.devices[i] = next;
                    },
                    None => {
                        proof {
                            lemma_by_id_absent(before, id);
                        }
                    },
                }
                EiEffect::Nothing
            },
            EiEvent::DeviceRemoved(id) => {
                match self.find(id) {
                    Some(i) => {
                        proof {
                            lemma_by_id_remove(before, i as int);
                        }
                        self.devices.remove(i);
                    },
                    None => {
                        proof {
                            lemma_by_id_absent(before, id);
                            assert(by_id(before).remove(id) =~= by_id(before));
                        }
                    },
                }
                EiEffect::Nothing
            },
            EiEvent::Other => EiEffect::Nothing,
        }
    }

    /// A device through which input can be sent, if there is one. Which of several it is, is left
    /// open.
    pub fn device_for(&self, capability: DeviceCapability) -> (r: Option<u64>)
        requires
            self.wf(),
        ensures
            match r {
                Some(id) => {
                    &&& by_id(self.devices@).dom().contains(id)
                    &&& by_id(self.devices@)[id].emulating
                    &&& by_id(self.devices@)[id].capabilities.spec_has(capability)
                },
                None => forall|i: int|
                    0 <= i < self.devices@.len() ==> !((#[trigger] self.devices@[i]).emulating
                        && self.devices@[i].capabilities.spec_has(capability)),
            },
    {
        let mut i: usize = 0;
        while i < self.devices.len()
            invariant
                i <= self.devices@.len(),
                self.wf(),
                forall|j: int|
                    0 <= j < i ==> !((#[trigger] self.devices@[j]).emulating
                        && self.devices@[j].capabilities.spec_has(capability)),
            decreases self.devices@.len() - i,
        {
            if self.devices[i].emulating && self.devices[i].capabilities.has_capability(
                capability,
            ) {
                proof {
                    lemma_by_id(self.devices@, i as int);
                }
                return Some(self.devices[i].id);
            }
            i = i + 1;
        }
        None
    }
}

/// A device takes input between the time it is resumed and the time it is paused or removed.
pub proof fn law_paused_device_takes_no_input(
    caps: Capabilities,
    devices: Map<u64, DeviceState>,
    id: u64,
)
    requires
        devices.dom().contains(id),
    ensures
        handled(caps, devices, EiEvent::DeviceResumed(id)).0[id].emulating,
        !handled(caps, devices, EiEvent::DevicePaused(id)).0[id].emulating,
        !handled(caps, devices, EiEvent::DeviceRemoved(id)).0.dom().contains(id),
{
}

/// Each stretch of input through a device has another number than the one before it.
pub proof fn law_stretches_are_numbered(
    caps: Capabilities,
    devices: Map<u64, DeviceState>,
    id: u64,
)
    requires
        devices.dom().contains(id),
    ensures
        ({
            let (between, first) = handled(caps, devices, EiEvent::DeviceResumed(id));
            let (after, second) = handled(caps, between, EiEvent::DeviceResumed(id));
            &&& first matches EiEffect::StartEmulating { sequence, .. }
            &&& second matches EiEffect::StartEmulating { sequence: next, .. }
            &&& next == (sequence + 1) % 0x1_0000_0000
        }),
{
}

/// Input of an application. Positions are sent as they came.
#[derive(Debug, Clone, Copy, PartialEq, Eq, Structural)]
pub enum Command {
    PointerMotion,
    PointerMotionAbsolute,
    PointerButton { button: i32, state: u32 },
    PointerAxis,
    PointerAxisDiscrete { axis: u32, steps: i32 },
    KeyboardKeycode { keycode: i32, state: u32 },
    KeyboardKeysym { keysym: i32, state: u32 },
    TouchDown { slot: u32 },
    TouchMotion { slot: u32 },
    TouchUp { slot: u32 },
}

/// Input as it is sent.
#[derive(Debug, Clone, Copy, PartialEq, Eq, Structural)]
pub enum Action {
    MotionRelative,
    MotionAbsolute,
    Button { button: u32, pressed: bool },
    Scroll,
    ScrollDiscrete { x: i32, y: i32 },
    Key { keycode: u32, pressed: bool },
    Keysym { keysym: u32, pressed: bool },
    TouchDown { slot: u32 },
    TouchMotion { slot: u32 },
    TouchUp { slot: u32 },
}

/// A number that does not leave the numbers.
pub open spec fn saturated(n: int) -> int {
    if n < i32::MIN {
        i32::MIN as int
    } else if n > i32::MAX {
        i32::MAX as int
    } else {
        n
    }
}

/// How far steps scroll: 120 for each.
pub open spec fn detents(steps: i32) -> i32 {
    saturated(120 * steps) as i32
}

/// What a device must be able to do for input, and how the input is sent.
pub open spec fn sent(command: Command) -> (DeviceCapability, Action) {
    match command {
        Command::PointerMotion => (DeviceCapability::Pointer, Action::MotionRelative),
        Command::PointerMotionAbsolute => (
            DeviceCapability::PointerAbsolute,
            Action::MotionAbsolute,
        ),
        Command::PointerButton { button, state } => (
            DeviceCapability::Button,
            Action::Button { button: button as u32, pressed: state != 0 },
        ),
        Command::PointerAxis => (DeviceCapability::Scroll, Action::Scroll),
        Command::PointerAxisDiscrete { axis, steps } => (
            DeviceCapability::Scroll,
            if axis == 0 {
                Action::ScrollDiscrete { x: 0, y: detents(steps) }
            } else {
                Action::ScrollDiscrete { x: detents(steps), y: 0 }
            },
        ),
        Command::KeyboardKeycode { keycode, state } => (
            DeviceCapability::Keyboard,
            Action::Key { keycode: keycode as u32, pressed: state != 0 },
        ),
        Command::KeyboardKeysym { keysym, state } => (
            DeviceCapability::Text,
            Action::Keysym { keysym: keysym as u32, pressed: state != 0 },
        ),
        Command::TouchDown { slot } => (DeviceCapability::Touch, Action::TouchDown { slot }),
        Command::TouchMotion { slot } => (DeviceCapability::Touch, Action::TouchMotion { slot }),
        Command::TouchUp { slot } => (DeviceCapability::Touch, Action::TouchUp { slot }),
    }
}

/// How far steps scroll.
fn scroll_detents(steps: i32) -> (r: i32)
    ensures
        r == detents(steps),
{
    let n: i64 = 120 * steps as i64;
    if n < i32::MIN as i64 {
        i32::MIN
    } else if n > i32::MAX as i64 {
        i32::MAX
    } else {
        n as i32
    }
}

/// What a device must be able to do for input, and how the input is sent.
pub fn handle_command(command: Command) -> (r: (DeviceCapability, Action))
    ensures
        r == sent(command),
{
    match command {
        Command::PointerMotion => (DeviceCapability::Pointer, Action::MotionRelative),
        Command::PointerMotionAbsolute => (
            DeviceCapability::PointerAbsolute,
            Action::MotionAbsolute,
        ),
        Command::PointerButton { button, state } => (
            DeviceCapability::Button,
            Action::Button { button: button as u32, pressed: state != 0 },
        ),
        Command::PointerAxis => (DeviceCapability::Scroll, Action::Scroll),
        Command::PointerAxisDiscrete { axis, steps } => {
            let n: i32 = scroll_detents(steps);
            if axis == 0 {
                (DeviceCapability::Scroll, Action::ScrollDiscrete { x: 0, y: n })
            } else {
                (DeviceCapability::Scroll, Action::ScrollDiscrete { x: n, y: 0 })
            }
        },
        Command::KeyboardKeycode { keycode, state } => (
            DeviceCapability::Keyboard,
            Action::Key { keycode: keycode as u32, pressed: state != 0 },
        ),
        Command::KeyboardKeysym { keysym, state } => (
            DeviceCapability::Text,
            Action::Keysym { keysym: keysym as u32, pressed: state != 0 },
        ),
        Command::TouchDown { slot } => (DeviceCapability::Touch, Action::TouchDown { slot }),
        Command::TouchMotion { slot } => (DeviceCapability::Touch, Action::TouchMotion { slot }),
        Command::TouchUp { slot } => (DeviceCapability::Touch, Action::TouchUp { slot }),
    }
}

/// A time in seconds and nanoseconds, in microseconds.
pub fn micros(seconds: u64, nanoseconds: u64) -> (r: u64)
    requires
        seconds * 1_000_000 + nanoseconds / 1_000 <= u64::MAX,
    ensures
        r == seconds * 1_000_000 + nanoseconds / 1_000,
{
    seconds * 1_000_000 + nanoseconds / 1_000
}

/// A button or key is pressed where its state is not zero and released where it is; it is the button
/// or key that was meant, through a device that has such.
pub proof fn law_state_says_whether_pressed(code: i32, state: u32)
    ensures
        ({
            let (capability, action) = sent(Command::PointerButton { button: code, state });
            &&& capability is Button
            &&& action matches Action::Button { button, pressed }
            &&& code >= 0 ==> button == code
            &&& state == 0 ==> !pressed
            &&& state > 0 ==> pressed
        }),
        ({
            let (capability, action) = sent(Command::KeyboardKeycode { keycode: code, state });
            &&& capability is Keyboard
            &&& action matches Action::Key { keycode, pressed }
            &&& code >= 0 ==> keycode == code
            &&& state == 0 ==> !pressed
            &&& state > 0 ==> pressed
        }),
        ({
            let (capability, action) = sent(Command::KeyboardKeysym { keysym: code, state });
            &&& capability is Text
            &&& action matches Action::Keysym { keysym, pressed }
            &&& code >= 0 ==> keysym == code
            &&& state == 0 ==> !pressed
            &&& state > 0 ==> pressed
        }),
{
}

/// Codes below zero wrap around, so that different codes stay different.
pub proof fn law_different_codes_stay_different(a: i32, b: i32, state: u32)
    requires
        a != b,
    ensures
        sent(Command::PointerButton { button: a, state }) != sent(
            Command::PointerButton { button: b, state },
        ),
        sent(Command::KeyboardKeycode { keycode: a, state }) != sent(
            Command::KeyboardKeycode { keycode: b, state },
        ),
        sent(Command::KeyboardKeysym { keysym: a, state }) != sent(
            Command::KeyboardKeysym { keysym: b, state },
        ),
{
    assert(a != b ==> (a as u32) != (b as u32)) by (bit_vector);
}

/// Steps of a wheel scroll 120 each as far as numbers go: up and down for the axis zero, to the sides
/// for any other, and never both.
pub proof fn law_wheel_scrolls_along_its_axis(axis: u32, steps: i32)
    ensures
        ({
            let (capability, action) = sent(Command::PointerAxisDiscrete { axis, steps });
            &&& capability is Scroll
            &&& action matches Action::ScrollDiscrete { x, y }
            &&& axis == 0 ==> x == 0
            &&& axis != 0 ==> y == 0
            &&& -17_895_697 <= steps <= 17_895_697 ==> x + y == 120 * steps
            &&& steps > 17_895_697 ==> x + y == 0x7fff_ffff
            &&& steps < -17_895_697 ==> x + y == -0x8000_0000
        }),
{
}

/// A finger keeps its slot from the touch to the lift, and each kind of motion needs a device of its
/// kind.
pub proof fn law_motions_and_touches_keep_their_kind(slot: u32)
    ensures
        sent(Command::TouchDown { slot }).1 == (Action::TouchDown { slot }),
        sent(Command::TouchMotion { slot }).1 == (Action::TouchMotion { slot }),
        sent(Command::TouchUp { slot }).1 == (Action::TouchUp { slot }),
        sent(Command::TouchDown { slot }).0 is Touch,
        sent(Command::TouchMotion { slot }).0 is Touch,
        sent(Command::TouchUp { slot }).0 is Touch,
        sent(Command::PointerMotion) == (DeviceCapability::Pointer, Action::MotionRelative),
        sent(Command::PointerMotionAbsolute) == (
            DeviceCapability::PointerAbsolute,
            Action::MotionAbsolute,
        ),
        sent(Command::PointerAxis) == (DeviceCapability::Scroll, Action::Scroll),
{
}

/// A device that is added is there as it was announced, and takes no input before it is resumed. The
/// devices that are not spoken of stay as they are.
pub proof fn law_added_device_waits(
    caps: Capabilities,
    devices: Map<u64, DeviceState>,
    id: u64,
    other: u64,
    capabilities: Capabilities,
)
    requires
        id != other,
    ensures
        ({
            let (after, _) = handled(caps, devices, EiEvent::DeviceAdded { id, capabilities });
            &&& after.dom().contains(id)
            &&& after[id].capabilities == capabilities
            &&& !after[id].emulating
            &&& after[id].sequence == 0
            &&& after.dom().contains(other) == devices.dom().contains(other)
            &&& devices.dom().contains(other) ==> after[other] == devices[other]
        }),
        ({
            let (after, _) = handled(caps, devices, EiEvent::DeviceResumed(id));
            &&& after.dom().contains(other) == devices.dom().contains(other)
            &&& devices.dom().contains(other) ==> after[other] == devices[other]
            &&& devices.dom().contains(id) ==> after[id].capabilities == devices[id].capabilities
        }),
        ({
            let (after, _) = handled(caps, devices, EiEvent::DevicePaused(id));
            &&& after.dom().contains(other) == devices.dom().contains(other)
            &&& devices.dom().contains(other) ==> after[other] == devices[other]
            &&& devices.dom().contains(id) ==> after[id].capabilities == devices[id].capabilities
        }),
        ({
            let (after, _) = handled(caps, devices, EiEvent::DeviceRemoved(id));
            &&& after.dom().contains(other) == devices.dom().contains(other)
            &&& devices.dom().contains(other) ==> after[other] == devices[other]
        }),
{
}

/// A seat is asked for what the session may do; a device that is resumed starts under its own number,
/// and one that is not there does nothing.
pub proof fn law_compositor_is_answered(
    caps: Capabilities,
    devices: Map<u64, DeviceState>,
    id: u64,
)
    ensures
        handled(caps, devices, EiEvent::SeatAdded) == (devices, EiEffect::Bind(caps)),
        devices.dom().contains(id) ==> (handled(
            caps,
            devices,
            EiEvent::DeviceResumed(id),
        ).1 matches EiEffect::StartEmulating { id: started, sequence } && started == id && sequence
            == devices[id].sequence),
        !devices.dom().contains(id) ==> handled(caps, devices, EiEvent::DeviceResumed(id)) == (
            devices,
            EiEffect::Nothing,
        ),
        handled(caps, devices, EiEvent::DevicePaused(id)).1 is Nothing,
        handled(caps, devices, EiEvent::DeviceRemoved(id)).1 is Nothing,
        handled(caps, devices, EiEvent::Other) == (devices, EiEffect::Nothing),
{
}

} // verus!
