//! What is remembered from one run to the next.

use crate::device::{DeviceId, DeviceKey};
use vstd::prelude::*;

verus! {

/// Which side of the user interface has the keyboard: the list of devices
/// on the left, or the details on the right.
#[derive(Clone, Copy, Debug, PartialEq, Eq, Hash, Structural)]
pub enum Focus {
    Left,
    Right,
}

/// The remembered state as a mathematical value.
pub struct Remembered {
    pub last_device: Option<DeviceId>,
    pub last_focus: Option<Focus>,
}

/// The state that is remembered across runs: the device that was selected
/// and the side that had the focus. Both are conveniences: a run starts as
/// well without them.
#[derive(Debug)]
pub struct Persisted {
    pub last_device: Option<DeviceKey>,
    pub last_focus: Option<Focus>,
}

impl View for Persisted {
    type V = Remembered;

    open spec fn view(&self) -> Remembered {
        Remembered { last_device: self.last_device.deep_view(), last_focus: self.last_focus }
    }
}

impl PartialEq for Persisted {
    fn eq(&self, other: &Self) -> (r: bool) {
        let same_device = match (&self.last_device, &other.last_device) {
            (Some(a), Some(b)) => *a == *b,
            (None, None) => true,
            _ => false,
        };
        same_device && self.last_focus == other.last_focus
    }
}

impl vstd::std_specs::cmp::PartialEqSpecImpl for Persisted {
    open spec fn obeys_eq_spec() -> bool {
        true
    }

    open spec fn eq_spec(&self, other: &Self) -> bool {
        self@ == other@
    }
}

impl Eq for Persisted {

}

impl Default for Persisted {
    /// The state of a first run: nothing is remembered.
    fn default() -> (p: Self)
        ensures
            p@ == (Remembered { last_device: None, last_focus: None }),
    {
        Persisted { last_device: None, last_focus: None }
    }
}

/// The side that has the focus at the start of a run: the remembered one,
/// else the list of devices.
pub open spec fn starting_focus(remembered: Option<Focus>) -> Focus {
    match remembered {
        Some(f) => f,
        None => Focus::Left,
    }
}

} // verus!
