//! The actor: drives the heating relay as the controller asks, either on a
//! GPIO line or by writing a digit to a file.

use vstd::prelude::*;

verus! {

/// The level to put on the relay line for the heating state `on`: the relay
/// is driven low (`0`) to switch the heating on and high (`1`) to switch it off.
pub fn relay_level(on: bool) -> (level: u8)
    ensures
        level == (if on {
            0u8
        } else {
            1u8
        }),
{
    if on {
        0
    } else {
        1
    }
}

/// The digit that a file standing for the relay receives for the heating
/// state `on`: `1` when the heating is on, `0` when it is off.
pub fn file_digit(on: bool) -> (digit: u8)
    ensures
        digit == (if on {
            1u8
        } else {
            0u8
        }),
{
    if on {
        1
    } else {
        0
    }
}

} // verus!
