//! What a session hands out so that it can be taken up again.

use crate::text::str_eq;
use vstd::prelude::*;

verus! {

/// The vendor whose data are known.
pub const VENDOR: &'static str = "COSMIC";

/// The version of the data that is known.
pub const VERSION: u32 = 1;

/// Data of a vendor in a version. They are missing where they do not have the form that is known.
#[derive(Debug, PartialEq, Eq)]
pub struct RestoreData<T> {
    pub vendor: String,
    pub version: u32,
    pub data: Option<T>,
}

impl<T> RestoreData<T> {
    /// The data, if vendor and version are those that are known.
    pub open spec fn payload(self) -> Option<T> {
        if self.vendor@ == VENDOR@ && self.version == VERSION {
            self.data
        } else {
            None
        }
    }

    /// Data of this vendor and version.
    pub fn cosmic_v1(data: T) -> (r: Self)
        ensures
            r.vendor@ == VENDOR@,
            r.version == VERSION,
            r.data == Some(data),
            r.payload() == Some(data),
    {
        RestoreData { vendor: VENDOR.to_owned(), version: VERSION, data: Some(data) }
    }

    /// The data, if vendor and version are those that are known.
    pub fn cosmic_v1_data(&self) -> (r: Option<&T>)
        ensures
            match r {
                Some(data) => self.payload() == Some(*data),
                None => self.payload() is None,
            },
    {
        if str_eq(self.vendor.as_str(), VENDOR) && self.version == VERSION {
            self.data.as_ref()
        } else {
            None
        }
    }
}

/// Data of the first version of this vendor are read, and no others are, whatever they hold.
pub proof fn law_own_data_are_read<T>(kept: RestoreData<T>)
    ensures
        kept.vendor@ == "COSMIC"@ && kept.version == 1 ==> kept.payload() == kept.data,
        kept.vendor@ != "COSMIC"@ || kept.version != 1 ==> kept.payload() is None,
{
}

} // verus!
