//! The discrete decisions of the derived attributes: which modules draw on
//! the capacitor, and which calculated item a fitted module became.

use vstd::prelude::*;

use crate::calculate::item::{EffectCategory, Slot, SlotType};

verus! {

/// Whether a calculated item draws on the capacitor in the capacitor
/// simulation: a fitted module that is cycling, needs capacitor (or boosts
/// it), and has a cycle time.
pub open spec fn spec_draws_capacitor(
    slot: Slot,
    state: EffectCategory,
    has_capacitor_need: bool,
    has_capacitor_boost: bool,
    has_cycle_time: bool,
) -> bool {
    slot.spec_is_module() && state.spec_is_active() && (has_capacitor_need || has_capacitor_boost)
        && has_cycle_time
}

/// Whether a calculated item draws on the capacitor in the capacitor
/// simulation.
pub fn draws_capacitor(
    slot: &Slot,
    state: EffectCategory,
    has_capacitor_need: bool,
    has_capacitor_boost: bool,
    has_cycle_time: bool,
) -> (res: bool)
    ensures
        res == spec_draws_capacitor(
            *slot,
            state,
            has_capacitor_need,
            has_capacitor_boost,
            has_cycle_time,
        ),
{
    slot.is_module() && state.is_active() && (has_capacitor_need || has_capacitor_boost)
        && has_cycle_time
}

/// Whether `slot` is the slot of the given type and index.
pub open spec fn slot_is(slot: Slot, slot_type: SlotType, index: i32) -> bool {
    slot.slot_type == slot_type && slot.index == Some(index)
}

/// The position of the first of `slots` of the given type and index, if
/// any: the calculated item that a fitted module became.
pub fn find_slot(slots: &Vec<Slot>, slot_type: SlotType, index: i32) -> (res: Option<usize>)
    ensures
        match res {
            Some(i) => i < slots@.len() && slot_is(slots@[i as int], slot_type, index) && forall|
                j: int,
            |
                0 <= j < i ==> !slot_is(#[trigger] slots@[j], slot_type, index),
            None => forall|j: int|
                0 <= j < slots@.len() ==> !slot_is(#[trigger] slots@[j], slot_type, index),
        },
{
    let mut i: usize = 0;
    while i < slots.len()
        invariant
            i <= slots@.len(),
            forall|j: int| 0 <= j < i ==> !slot_is(#[trigger] slots@[j], slot_type, index),
        decreases slots@.len() - i,
    {
        let found = slots[i].slot_type == slot_type && match slots[i].index {
            Some(x) => x == index,
            None => false,
        };
        if found {
            return Some(i);
        }
        i = i + 1;
    }
    None
}

} // verus!
