//! The print dialog: its state, what it shows and what it hands to the printer and the portal.

pub mod choices;
pub mod page_range;
pub mod printers;
pub mod state;
pub mod update;
pub mod hints;
pub mod response;
pub mod round_trip;
pub mod agreement;
pub mod usage;
pub mod models;
pub mod labels;
pub mod panel;
pub mod screens;
pub mod execution;
