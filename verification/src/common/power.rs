//! Power actions a user can ask for from the lock screen.

use vstd::prelude::*;

verus! {

#[derive(Debug, Clone, Copy, PartialEq, Eq, Structural)]
pub enum PowerAction {
    Suspend,
    Reboot,
    Poweroff,
}

} // verus!
