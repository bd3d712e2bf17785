//! What the portal answers, and the settings of the desktop's appearance that it tells of.

use crate::dict::Dict;
use crate::text::{str_eq, views};
use vstd::prelude::*;

verus! {

/// The name of the service on the bus.
pub const DBUS_NAME: &'static str = "org.freedesktop.impl.portal.desktop.cosmic";

/// The path of the service on the bus.
pub const DBUS_PATH: &'static str = "/org/freedesktop/portal/desktop";

/// The number of an answer that succeeded.
pub const PORTAL_RESPONSE_SUCCESS: u32 = 0;

/// The number of an answer that the user cancelled.
pub const PORTAL_RESPONSE_CANCELLED: u32 = 1;

/// The number of an answer that failed otherwise.
pub const PORTAL_RESPONSE_OTHER: u32 = 2;

/// The answer to a request.
#[derive(Debug, PartialEq, Eq, Structural)]
pub enum PortalResponse<T> {
    Success(T),
    Cancelled,
    Other,
}

impl<T> PortalResponse<T> {
    /// The number of the answer.
    pub fn code(&self) -> (r: u32)
        ensures
            r == match *self {
                PortalResponse::Success(_) => PORTAL_RESPONSE_SUCCESS,
                PortalResponse::Cancelled => PORTAL_RESPONSE_CANCELLED,
                PortalResponse::Other => PORTAL_RESPONSE_OTHER,
            },
            *self is Success <==> r == 0,
            *self is Cancelled <==> r == 1,
            *self is Other <==> r == 2,
    {
        match self {
            PortalResponse::Success(_) => PORTAL_RESPONSE_SUCCESS,
            PortalResponse::Cancelled => PORTAL_RESPONSE_CANCELLED,
            PortalResponse::Other => PORTAL_RESPONSE_OTHER,
        }
    }

    /// What came with an answer that succeeded. The others come with nothing.
    pub fn result(self) -> (r: Option<T>)
        ensures
            r == match self {
                PortalResponse::Success(result) => Some(result),
                _ => None,
            },
    {
        match self {
            PortalResponse::Success(result) => Some(result),
            _ => None,
        }
    }
}

/// Whether the desktop is dark.
#[derive(Debug, Clone, Copy, PartialEq, Eq, Structural)]
pub enum ColorScheme {
    /// No preference.
    NoPreference,
    /// Prefers dark appearance.
    PreferDark,
    /// Prefers light appearance.
    PreferLight,
}

impl ColorScheme {
    pub open spec fn spec_number(self) -> u32 {
        match self {
            ColorScheme::NoPreference => 0,
            ColorScheme::PreferDark => 1,
            ColorScheme::PreferLight => 2,
        }
    }

    /// The scheme of a desktop that is dark or not.
    pub open spec fn of_dark(is_dark: bool) -> ColorScheme {
        if is_dark {
            ColorScheme::PreferDark
        } else {
            ColorScheme::PreferLight
        }
    }

    /// The number of the scheme.
    pub fn number(&self) -> (r: u32)
        ensures
            r == self.spec_number(),
    {
        match self {
            ColorScheme::NoPreference => 0,
            ColorScheme::PreferDark => 1,
            ColorScheme::PreferLight => 2,
        }
    }
}

/// Whether contrasts are high.
#[derive(Debug, Clone, Copy, PartialEq, Eq, Structural)]
pub enum Contrast {
    /// No preference.
    NoPreference,
    /// Higher contrast.
    High,
}

impl Contrast {
    pub open spec fn spec_number(self) -> u32 {
        match self {
            Contrast::NoPreference => 0,
            Contrast::High => 1,
        }
    }

    /// The contrast of a desktop whose contrasts are high or not.
    pub open spec fn of_high(is_high_contrast: bool) -> Contrast {
        if is_high_contrast {
            Contrast::High
        } else {
            Contrast::NoPreference
        }
    }

    /// The number of the contrast.
    pub fn number(&self) -> (r: u32)
        ensures
            r == self.spec_number(),
    {
        match self {
            Contrast::NoPreference => 0,
            Contrast::High => 1,
        }
    }
}

/// A colour. Each component is a floating-point number, by its bits.
#[derive(Debug, Clone, Copy, PartialEq, Eq, Structural)]
pub struct Color {
    pub red: u64,
    pub green: u64,
    pub blue: u64,
}

/// The value of a setting of the appearance.
#[derive(Debug, Clone, Copy, PartialEq, Eq, Structural)]
pub enum Appearance {
    Number(u32),
    Color(Color),
}

/// The settings of the appearance.
#[derive(Debug, Clone, Copy, PartialEq, Eq, Structural)]
pub struct Settings {
    pub color_scheme: ColorScheme,
    pub contrast: Contrast,
    pub accent: Color,
}

/// Why a setting cannot be read.
#[derive(Debug, Clone, Copy, PartialEq, Eq, Structural)]
pub enum SettingsError {
    /// There is no such namespace or no such key in it.
    UnknownKey,
}

/// The namespace of the appearance.
pub open spec fn appearance_namespace() -> Seq<char> {
    "org.freedesktop.appearance"@
}

impl Settings {
    /// The setting under a key of the appearance.
    pub open spec fn setting(self, key: Seq<char>) -> Option<Appearance> {
        if key == "color-scheme"@ {
            Some(Appearance::Number(self.color_scheme.spec_number()))
        } else if key == "contrast"@ {
            Some(Appearance::Number(self.contrast.spec_number()))
        } else if key == "accent-color"@ {
            Some(Appearance::Color(self.accent))
        } else {
            None
        }
    }

    /// All settings of the appearance.
    pub open spec fn all_settings(self) -> Map<Seq<char>, Appearance> {
        Map::empty().insert(
            "color-scheme"@,
            Appearance::Number(self.color_scheme.spec_number()),
        ).insert("contrast"@, Appearance::Number(self.contrast.spec_number())).insert(
            "accent-color"@,
            Appearance::Color(self.accent),
        )
    }

    /// The settings of a namespace: none but in that of the appearance.
    pub open spec fn namespace_settings(self, namespace: Seq<char>) -> Map<Seq<char>, Appearance> {
        if namespace == appearance_namespace() {
            self.all_settings()
        } else {
            Map::empty()
        }
    }

    /// The settings for a theme.
    pub fn new(is_dark: bool, is_high_contrast: bool, accent: Color) -> (r: Self)
        ensures
            r.color_scheme == ColorScheme::of_dark(is_dark),
            r.contrast == Contrast::of_high(is_high_contrast),
            r.accent == accent,
    {
        Settings {
            color_scheme: if is_dark {
                ColorScheme::PreferDark
            } else {
                ColorScheme::PreferLight
            },
            contrast: if is_high_contrast {
                Contrast::High
            } else {
                Contrast::NoPreference
            },
            accent,
        }
    }

    /// Reads one setting.
    pub fn read_one(&self, namespace: &str, key: &str) -> (r: Result<Appearance, SettingsError>)
        ensures
            r == if namespace@ == appearance_namespace() {
                match self.setting(key@) {
                    Some(value) => Ok(value),
                    None => Err(SettingsError::UnknownKey),
                }
            } else {
                Err(SettingsError::UnknownKey)
            },
    {
        if !str_eq(namespace, "org.freedesktop.appearance") {
            Err(SettingsError::UnknownKey)
        } else if str_eq(key, "color-scheme") {
            Ok(Appearance::Number(self.color_scheme.number()))
        } else if str_eq(key, "contrast") {
            Ok(Appearance::Number(self.contrast.number()))
        } else if str_eq(key, "accent-color") {
            Ok(Appearance::Color(self.accent))
        } else {
            Err(SettingsError::UnknownKey)
        }
    }

    /// Reads one setting.
    pub fn read(&self, namespace: &str, key: &str) -> (r: Result<Appearance, SettingsError>)
        ensures
            r == if namespace@ == appearance_namespace() {
                match self.setting(key@) {
                    Some(value) => Ok(value),
                    None => Err(SettingsError::UnknownKey),
                }
            } else {
                Err(SettingsError::UnknownKey)
            },
    {
        self.read_one(namespace, key)
    }

    /// The settings of a namespace.
    fn read_namespace(&self, namespace: &str) -> (r: Dict<Appearance>)
        ensures
            r@ == self.namespace_settings(namespace@),
    {
        let mut inner: Dict<Appearance> = Dict::new();
        if str_eq(namespace, "org.freedesktop.appearance") {
            inner.insert("color-scheme", Appearance::Number(self.color_scheme.number()));
            inner.insert("contrast", Appearance::Number(self.contrast.number()));
            inner.insert("accent-color", Appearance::Color(self.accent));
        }
        inner
    }

    /// Reads all settings of some namespaces; of the appearance where none is named.
    pub fn read_all(&self, namespaces: &Vec<String>) -> (r: Dict<Dict<Appearance>>)
        ensures
            r@.dom() == if namespaces@.len() == 0 {
                set![appearance_namespace()]
            } else {
                views(namespaces@).to_set()
            },
            forall|namespace: Seq<char>|
                r@.dom().contains(namespace) ==> (#[trigger] r@[namespace])@
                    == self.namespace_settings(namespace),
    {
        let mut map: Dict<Dict<Appearance>> = Dict::new();
        if namespaces.len() == 0 {
            let inner = self.read_namespace("org.freedesktop.appearance");
            map.insert("org.freedesktop.appearance", inner);
            proof {
                assert(map@.dom() =~= set![appearance_namespace()]);
            }
            return map;
        }
        let ghost all = views(namespaces@);
        let mut i: usize = 0;
        proof {
            assert(map@.dom() =~= all.take(0).to_set());
        }
        while i < namespaces.len()
            invariant
                i <= namespaces@.len(),
                all == views(namespaces@),
                map@.dom() == all.take(i as int).to_set(),
                forall|namespace: Seq<char>|
                    map@.dom().contains(namespace) ==> (#[trigger] map@[namespace])@
                        == self.namespace_settings(namespace),
            decreases namespaces@.len() - i,
        {
            let ghost before = map@;
            let inner = self.read_namespace(namespaces[i].as_str());
            map.insert(namespaces[i].as_str(), inner);
            proof {
                let name = namespaces@[i as int]@;
                assert(all.take(i + 1) =~= all.take(i as int).push(name));
                assert(all.take(i as int).push(name).to_set() =~= all.take(
                    i as int,
                ).to_set().insert(name)) by {
                    lemma_push_to_set(all.take(i as int), name);
                }
                assert(map@.dom() =~= all.take(i + 1).to_set());
                assert forall|namespace: Seq<char>| map@.dom().contains(namespace) implies (
                #[trigger] map@[namespace])@ == self.namespace_settings(namespace) by {
                    if namespace != name {
                        assert(map@[namespace] == before[namespace]);
                    }
                }
            }
            i = i + 1;
        }
        proof {
            assert(all.take(all.len() as int) =~= all);
        }
        map
    }
}

/// The elements of a sequence with one more behind it.
proof fn lemma_push_to_set<T>(s: Seq<T>, value: T)
    ensures
        s.push(value).to_set() == s.to_set().insert(value),
{
    let pushed = s.push(value);
    assert forall|x: T| pushed.to_set().contains(x) <==> s.to_set().insert(value).contains(x) by {
        if pushed.contains(x) {
            let i = choose|i: int| 0 <= i < pushed.len() && pushed[i] == x;
            if i < s.len() {
                assert(s[i] == x);
            }
        }
        if s.contains(x) {
            let i = choose|i: int| 0 <= i < s.len() && s[i] == x;
            assert(pushed[i] == x);
        }
        assert(pushed[s.len() as int] == value);
    }
    assert(pushed.to_set() =~= s.to_set().insert(value));
}

/// What is read of one setting is what is read of all of them.
pub proof fn law_read_one_is_in_read_all(settings: Settings, namespace: Seq<char>, key: Seq<char>)
    ensures
        namespace == appearance_namespace() ==> {
            &&& settings.setting(key) is Some <==> settings.namespace_settings(
                namespace,
            ).dom().contains(key)
            &&& settings.setting(key) is Some ==> settings.namespace_settings(namespace)[key]
                == settings.setting(key)->0
        },
{
    reveal_strlit("color-scheme");
    reveal_strlit("contrast");
    reveal_strlit("accent-color");
    assert("color-scheme"@.len() == 12 && "contrast"@.len() == 8 && "accent-color"@.len() == 12);
    assert("color-scheme"@[0] == 'c' && "accent-color"@[0] == 'a');
}

/// A dark desktop is told by the number one and a light one by two; high contrasts by one and others by
/// zero; the accent as it is. Nothing else is told, and nothing outside of the appearance.
pub proof fn law_theme_is_told_by_its_numbers(settings: Settings, is_dark: bool, is_high: bool)
    ensures
        settings.color_scheme == ColorScheme::of_dark(is_dark) ==> settings.setting("color-scheme"@)
            == Some(
            Appearance::Number(
                if is_dark {
                    1
                } else {
                    2
                },
            ),
        ),
        settings.color_scheme is NoPreference ==> settings.setting("color-scheme"@) == Some(
            Appearance::Number(0),
        ),
        settings.contrast == Contrast::of_high(is_high) ==> settings.setting("contrast"@) == Some(
            Appearance::Number(
                if is_high {
                    1
                } else {
                    0
                },
            ),
        ),
        settings.setting("accent-color"@) == Some(Appearance::Color(settings.accent)),
        forall|key: Seq<char>|
            key != "color-scheme"@ && key != "contrast"@ && key != "accent-color"@
                ==> #[trigger] settings.setting(key) is None,
        forall|namespace: Seq<char>|
            namespace != "org.freedesktop.appearance"@ ==> #[trigger] settings.namespace_settings(
                namespace,
            ).dom() == Set::<Seq<char>>::empty(),
{
    reveal_strlit("color-scheme");
    reveal_strlit("contrast");
    reveal_strlit("accent-color");
    assert("color-scheme"@.len() == 12 && "contrast"@.len() == 8 && "accent-color"@.len() == 12);
    assert("color-scheme"@[0] == 'c' && "accent-color"@[0] == 'a');
    assert forall|namespace: Seq<char>| namespace != "org.freedesktop.appearance"@ implies
        #[trigger] settings.namespace_settings(namespace).dom() == Set::<Seq<char>>::empty() by {
        assert(settings.namespace_settings(namespace).dom() =~= Set::<Seq<char>>::empty());
    }
}

} // verus!
