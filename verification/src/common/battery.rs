//! Battery readings.

use vstd::prelude::*;

verus! {

#[derive(Debug, Clone, Copy, PartialEq, Eq, Structural)]
pub struct BatterySnapshot {
    pub percent: u8,
    pub charging: bool,
}

} // verus!
