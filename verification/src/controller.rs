//! The controller's rule: switch the heating off above the target
//! temperature, on below the target minus the hysteresis, and leave it as it
//! is in between.
//!
//! Temperatures are floating-point numbers; the two comparisons that the rule
//! makes of each reading are handed in as booleans:
//! `above_target` is `temperature > target`, and `below_band` is
//! `temperature < target - hysteresis`.

use vstd::prelude::*;

verus! {

/// Whether the heating is on after a reading, given whether it was on before.
pub open spec fn next_on(on: bool, above_target: bool, below_band: bool) -> bool {
    if above_target {
        false
    } else if below_band {
        true
    } else {
        on
    }
}

/// Applies one reading to the heating state `on`.
pub fn update(on: &mut bool, above_target: bool, below_band: bool)
    ensures
        *final(on) == next_on(*old(on), above_target, below_band),
        above_target ==> !*final(on),
        !above_target && below_band ==> *final(on),
        !above_target && !below_band ==> *final(on) == *old(on),
{
    if above_target {
        *on = false;
    } else if below_band {
        *on = true;
    }
}

/// The state after each of `readings` in turn, starting from `on`; a
/// reading is the pair (`above_target`, `below_band`).
pub open spec fn state_after(on: bool, readings: Seq<(bool, bool)>) -> bool
    decreases readings.len(),
{
    if readings.len() == 0 {
        on
    } else {
        let r = readings.last();
        next_on(state_after(on, readings.drop_last()), r.0, r.1)
    }
}

/// A reading outside the band between target minus hysteresis and target.
pub open spec fn outside_band(r: (bool, bool)) -> bool {
    r.0 || r.1
}

/// The same reading twice in a row changes nothing the second time.
pub proof fn lemma_update_idempotent(on: bool, above_target: bool, below_band: bool)
    ensures
        next_on(next_on(on, above_target, below_band), above_target, below_band) == next_on(
            on,
            above_target,
            below_band,
        ),
{
}

/// After a reading outside the band, the state no longer depends on the state before it.
pub proof fn lemma_update_forgets_outside_band(
    on1: bool,
    on2: bool,
    above_target: bool,
    below_band: bool,
)
    requires
        above_target || below_band,
    ensures
        next_on(on1, above_target, below_band) == next_on(on2, above_target, below_band),
{
}

/// After a series of readings, the heating is on exactly when the last
/// reading outside the band was not above the target (so was below the band);
/// when every reading was inside the band, the state is the one it started from.
pub proof fn lemma_state_after_last_outside(on: bool, readings: Seq<(bool, bool)>)
    ensures
        (forall|i: int| 0 <= i < readings.len() ==> !outside_band(#[trigger] readings[i]))
            ==> state_after(on, readings) == on,
        forall|j: int|
            0 <= j < readings.len() && outside_band(#[trigger] readings[j]) && (forall|i: int|
                j < i < readings.len() ==> !outside_band(#[trigger] readings[i])) ==> state_after(
                on,
                readings,
            ) == !readings[j].0,
    decreases readings.len(),
{
    if readings.len() > 0 {
        let init = readings.drop_last();
        lemma_state_after_last_outside(on, init);
        assert forall|i: int| 0 <= i < init.len() implies init[i] == readings[i] by {}
        assert forall|j: int|
            0 <= j < readings.len() && outside_band(#[trigger] readings[j]) && (forall|i: int|
                j < i < readings.len() ==> !outside_band(#[trigger] readings[i])) implies state_after(
            on,
            readings,
        ) == !readings[j].0 by {
            if j < readings.len() - 1 {
                assert(!outside_band(readings[readings.len() - 1]));
                assert(init[j] == readings[j]);
                assert forall|i: int| j < i < init.len() implies !outside_band(#[trigger] init[i]) by {
                    assert(init[i] == readings[i]);
                    assert(!outside_band(readings[i]));
                }
            }
        }
        if forall|i: int| 0 <= i < readings.len() ==> !outside_band(#[trigger] readings[i]) {
            assert forall|i: int| 0 <= i < init.len() implies !outside_band(#[trigger] init[i]) by {
                assert(init[i] == readings[i]);
                assert(!outside_band(readings[i]));
            }
            assert(!outside_band(readings[readings.len() - 1]));
        }
    }
}

} // verus!
