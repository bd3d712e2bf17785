//! What the service does with what it is told, from within and from the compositor.

use crate::app::ThemeEvent;
use crate::portal::{Appearance, Color, ColorScheme, Contrast, Settings, DBUS_NAME};
use crate::text::str_eq;
use vstd::prelude::*;

verus! {

/// What the service is told.
#[derive(Debug, Clone, Copy, PartialEq, Eq, Structural)]
pub enum Event {
    /// A request or a change that the windows of the portal take up.
    Request,
    /// A change of the theme.
    Theme(ThemeEvent),
    /// The service has begun.
    Init,
    /// The name on the bus was lost.
    NameLost,
}

/// The value that is told with a change of a setting.
#[derive(Debug, Clone, Copy, PartialEq, Eq, Structural)]
pub enum SignalValue {
    Number(u32),
    /// A colour as three numbers.
    Triple(Color),
}

/// What the service does.
#[derive(Debug, Clone, Copy, PartialEq, Eq)]
pub enum Reaction {
    /// What it was told is passed on to the windows.
    Forward,
    /// It is told that the setting under the key of the appearance has changed.
    SettingChanged { key: &'static str, value: SignalValue },
    Nothing,
}

/// The settings after the service was told something.
pub open spec fn settings_after(settings: Settings, event: Event) -> Settings {
    match event {
        Event::Theme(ThemeEvent::Accent(accent)) => Settings { accent, ..settings },
        Event::Theme(ThemeEvent::IsDark(is_dark)) => Settings {
            color_scheme: ColorScheme::of_dark(is_dark),
            ..settings
        },
        Event::Theme(ThemeEvent::HighContrast(high)) => Settings {
            contrast: Contrast::of_high(high),
            ..settings
        },
        _ => settings,
    }
}

/// Whether this is what the service does when it is told something.
pub open spec fn is_reaction(event: Event, reaction: Reaction) -> bool {
    match event {
        Event::Request => reaction == Reaction::Forward,
        Event::Theme(ThemeEvent::Accent(accent)) => {
            &&& reaction matches Reaction::SettingChanged { key, value }
            &&& key@ == "accent-color"@
            &&& value == SignalValue::Triple(accent)
        },
        Event::Theme(ThemeEvent::IsDark(is_dark)) => {
            &&& reaction matches Reaction::SettingChanged { key, value }
            &&& key@ == "color-scheme"@
            &&& value == SignalValue::Number(ColorScheme::of_dark(is_dark).spec_number())
        },
        Event::Theme(ThemeEvent::HighContrast(high)) => {
            &&& reaction matches Reaction::SettingChanged { key, value }
            &&& key@ == "contrast"@
            &&& value == SignalValue::Number(Contrast::of_high(high).spec_number())
        },
        Event::Init | Event::NameLost => reaction == Reaction::Nothing,
    }
}

/// Does what follows from what the service is told: requests are passed on, and changes of the theme
/// go into the settings and are told to all.
pub fn process_event(settings: &mut Settings, event: Event) -> (r: Reaction)
    ensures
        *final(settings) == settings_after(*old(settings), event),
        is_reaction(event, r),
{
    match event {
        Event::Request => Reaction::Forward,
        Event::Theme(ThemeEvent::Accent(accent)) => {
            settings.accent = accent;
            Reaction::SettingChanged { key: "accent-color", value: SignalValue::Triple(accent) }
        },
        Event::Theme(ThemeEvent::IsDark(is_dark)) => {
            let scheme = if is_dark {
                ColorScheme::PreferDark
            } else {
                ColorScheme::PreferLight
            };
            settings.color_scheme = scheme;
            Reaction::SettingChanged {
                key: "color-scheme",
                value: SignalValue::Number(scheme.number()),
            }
        },
        Event::Theme(ThemeEvent::HighContrast(high)) => {
            let contrast = if high {
                Contrast::High
            } else {
                Contrast::NoPreference
            };
            settings.contrast = contrast;
            Reaction::SettingChanged {
                key: "contrast",
                value: SignalValue::Number(contrast.number()),
            }
        },
        Event::Init | Event::NameLost => Reaction::Nothing,
    }
}

/// Whether a value that is told is the one that is read.
pub open spec fn same_value(told: SignalValue, read: Appearance) -> bool {
    match (told, read) {
        (SignalValue::Number(a), Appearance::Number(b)) => a == b,
        (SignalValue::Triple(a), Appearance::Color(b)) => a == b,
        _ => false,
    }
}

/// What is told of a setting is what is read of it from then on.
pub proof fn law_told_setting_is_read(settings: Settings, event: Event, reaction: Reaction)
    requires
        is_reaction(event, reaction),
    ensures
        reaction matches Reaction::SettingChanged { key, value } ==> {
            &&& settings_after(settings, event).setting(key@) is Some
            &&& same_value(value, settings_after(settings, event).setting(key@)->0)
        },
{
    reveal_strlit("color-scheme");
    reveal_strlit("contrast");
    reveal_strlit("accent-color");
    assert("color-scheme"@.len() == 12);
    assert("contrast"@.len() == 8);
    assert("accent-color"@.len() == 12);
    assert("color-scheme"@[0] == 'c');
    assert("accent-color"@[0] == 'a');
}

/// A change of one setting leaves the others.
pub proof fn law_other_settings_stay(settings: Settings, event: Event)
    ensures
        event != Event::Theme(ThemeEvent::IsDark(true)) && event != Event::Theme(
            ThemeEvent::IsDark(false),
        ) ==> settings_after(settings, event).color_scheme == settings.color_scheme,
        !(event matches Event::Theme(ThemeEvent::Accent(_))) ==> settings_after(
            settings,
            event,
        ).accent == settings.accent,
        !(event matches Event::Theme(ThemeEvent::HighContrast(_))) ==> settings_after(
            settings,
            event,
        ).contrast == settings.contrast,
{
}

/// What comes from the compositor.
#[derive(Debug, Clone, Copy, PartialEq, Eq, Structural)]
pub enum WaylandReceipt {
    /// The windows have changed.
    ToplevelsUpdated,
    /// Some news was missed.
    Lagged,
    /// There will be no more.
    Closed,
    /// There is no more at present.
    Empty,
}

/// What the service does when something comes from the compositor.
#[derive(Debug, Clone, Copy, PartialEq, Eq, Structural)]
pub enum WaylandReaction {
    /// It is told once that other applications run, whatever else has come already.
    TellRunningApplications,
    Nothing,
    /// The service stops listening.
    Stop,
}

/// What the service does when something comes from the compositor.
pub fn process_wayland(receipt: WaylandReceipt) -> (r: WaylandReaction)
    ensures
        r == match receipt {
            WaylandReceipt::ToplevelsUpdated => WaylandReaction::TellRunningApplications,
            WaylandReceipt::Lagged | WaylandReceipt::Empty => WaylandReaction::Nothing,
            WaylandReceipt::Closed => WaylandReaction::Stop,
        },
{
    match receipt {
        WaylandReceipt::ToplevelsUpdated => WaylandReaction::TellRunningApplications,
        WaylandReceipt::Lagged | WaylandReceipt::Empty => WaylandReaction::Nothing,
        WaylandReceipt::Closed => WaylandReaction::Stop,
    }
}

/// Whether there may be more to be dropped before it is told that other applications run.
pub fn drops_more(receipt: WaylandReceipt) -> (r: bool)
    ensures
        r == !(receipt == WaylandReceipt::Empty || receipt == WaylandReceipt::Closed),
{
    match receipt {
        WaylandReceipt::Empty | WaylandReceipt::Closed => false,
        _ => true,
    }
}

/// Whether the name that was lost is that of the service.
pub fn is_own_name(name: &str) -> (r: bool)
    ensures
        r == (name@ == DBUS_NAME@),
{
    str_eq(name, DBUS_NAME)
}

/// A change of the theme is read from then on under its key: dark as one, light as two, high contrast as
/// one and other contrast as zero, the accent as it is. It is told to all in the same words.
pub proof fn law_change_of_theme_reaches_the_settings(
    settings: Settings,
    change: ThemeEvent,
    reaction: Reaction,
)
    requires
        is_reaction(Event::Theme(change), reaction),
    ensures
        ({
            let after = settings_after(settings, Event::Theme(change));
            &&& reaction matches Reaction::SettingChanged { key, value }
            &&& change matches ThemeEvent::IsDark(dark) ==> {
                let n: u32 = if dark {
                    1
                } else {
                    2
                };
                &&& after.setting("color-scheme"@) == Some(Appearance::Number(n))
                &&& key@ == "color-scheme"@
                &&& value == SignalValue::Number(n)
            }
            &&& change matches ThemeEvent::HighContrast(high) ==> {
                let n: u32 = if high {
                    1
                } else {
                    0
                };
                &&& after.setting("contrast"@) == Some(Appearance::Number(n))
                &&& key@ == "contrast"@
                &&& value == SignalValue::Number(n)
            }
            &&& change matches ThemeEvent::Accent(accent) ==> {
                &&& after.setting("accent-color"@) == Some(Appearance::Color(accent))
                &&& key@ == "accent-color"@
                &&& value == SignalValue::Triple(accent)
            }
        }),
{
    crate::portal::law_theme_is_told_by_its_numbers(
        settings_after(settings, Event::Theme(change)),
        change == ThemeEvent::IsDark(true),
        change == ThemeEvent::HighContrast(true),
    );
}

/// Requests are passed on, and nothing else is; they change no setting.
pub proof fn law_requests_are_passed_on(settings: Settings, event: Event, reaction: Reaction)
    requires
        is_reaction(event, reaction),
    ensures
        reaction is Forward <==> event is Request,
        !(event is Theme) ==> settings_after(settings, event) == settings,
        reaction is SettingChanged <==> event is Theme,
{
}

} // verus!
