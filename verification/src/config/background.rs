//! Which applications may run in the background.

use crate::dict::Dict;
use vstd::prelude::*;

verus! {

/// The answer to an application that asks to run in the background.
#[derive(Debug, Clone, Copy, PartialEq, Eq, Structural)]
pub enum PermissionDialog {
    /// Grant applications permission to run in the background.
    Allow,
    /// Deny applications permission to run in the background.
    Deny,
    /// Always ask if new applications should be granted background permissions.
    Ask,
}

impl Default for PermissionDialog {
    fn default() -> (r: Self)
        ensures
            r == PermissionDialog::Ask,
    {
        PermissionDialog::Ask
    }
}

/// Background portal settings.
#[derive(Debug)]
pub struct Background {
    /// Application id and allowed status.
    pub apps: Dict<bool>,
    /// The answer for an application that is not in `apps`.
    pub default_perm: PermissionDialog,
}

impl Default for Background {
    fn default() -> (r: Self)
        ensures
            r.apps@ == Map::<Seq<char>, bool>::empty(),
            r.default_perm == PermissionDialog::Ask,
    {
        Background { apps: Dict::new(), default_perm: PermissionDialog::default() }
    }
}

} // verus!
