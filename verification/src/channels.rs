//! The in-database notification channels coordinating the scheduler.

use vstd::prelude::*;

use crate::numbers::str_eq;

verus! {

/// The two channels the scheduler listens on.
#[derive(Clone, Copy, Debug, PartialEq, Eq, Structural)]
pub enum NotificationChannel {
    NewOrder,
    MaterialsNeeded,
}

impl NotificationChannel {
    /// The channel's wire name.
    pub open spec fn spec_name(self) -> Seq<char> {
        match self {
            NotificationChannel::NewOrder => "new_order"@,
            NotificationChannel::MaterialsNeeded => "materials_needed"@,
        }
    }

    /// The channel's wire name.
    pub fn name(self) -> (r: &'static str)
        ensures
            r@ == self.spec_name(),
    {
        match self {
            NotificationChannel::NewOrder => "new_order",
            NotificationChannel::MaterialsNeeded => "materials_needed",
        }
    }

    /// The channel a wire name stands for, if any.
    pub open spec fn spec_from_name(s: Seq<char>) -> Option<NotificationChannel> {
        if s == "new_order"@ {
            Some(NotificationChannel::NewOrder)
        } else if s == "materials_needed"@ {
            Some(NotificationChannel::MaterialsNeeded)
        } else {
            None
        }
    }

    /// Reads a channel from its wire name; any other name is rejected.
    pub fn from_name(s: &str) -> (r: Option<NotificationChannel>)
        ensures
            r == Self::spec_from_name(s@),
    {
        if str_eq(s, "new_order") {
            Some(NotificationChannel::NewOrder)
        } else if str_eq(s, "materials_needed") {
            Some(NotificationChannel::MaterialsNeeded)
        } else {
            None
        }
    }
}

} // verus!
