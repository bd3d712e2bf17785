//! The settings that are kept from one session to the next.

pub mod background;
pub mod print;
pub mod screenshot;

use crate::config::background::Background;
use crate::config::screenshot::{ChoiceView, ImageSaveLocation, Screenshot};
use vstd::prelude::*;

verus! {

/// The application under whose name the settings are kept.
pub const APP_ID: &'static str = "com.system76.CosmicPortal";

/// The version of the settings.
pub const CONFIG_VERSION: u64 = 1;

/// All settings.
#[derive(Debug)]
pub struct Config {
    /// Interactive screenshot settings.
    pub screenshot: Screenshot,
    /// Background portal settings.
    pub background: Background,
}

impl Default for Config {
    fn default() -> (r: Self)
        ensures
            r.screenshot.save_location == ImageSaveLocation::Pictures,
            r.screenshot.choice@ == ChoiceView::Output(None),
            r.screenshot.last_rectangle is None,
            r.background.apps@ == Map::<Seq<char>, bool>::empty(),
            r.background.default_perm == background::PermissionDialog::Ask,
    {
        Config { screenshot: Screenshot::default(), background: Background::default() }
    }
}

} // verus!
