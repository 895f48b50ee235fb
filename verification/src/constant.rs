use vstd::prelude::*;

verus! {

/// Internal character representation ID.
pub const CHARACTER_TYPE_ID: i32 = 1373;

/// Mass attribute ID (corresponding to `mass`).
pub const ATTRIBUTE_MASS_ID: i32 = 4;

/// Capacitor need ID.
pub const ATTRIBUTE_CAPACITOR_NEED_ID: i32 = 6;

/// Capacity attribute ID (corresponding to `capacity`).
pub const ATTRIBUTE_CAPACITY_ID: i32 = 38;

/// Volume attribute ID (corresponding to `volume`).
pub const ATTRIBUTE_VOLUME_ID: i32 = 161;

/// Radius attribute ID (corresponding to `radius`).
pub const ATTRIBUTE_RADIUS_ID: i32 = 162;

/// Skill level attribute ID (corresponding to `skillLevel`).
pub const ATTRIBUTE_SKILL_LEVEL_ID: i32 = 280;

/// Recharge rate attribute ID (capacitor recharge rate).
pub const ATTRIBUTE_RECHARGE_RATE_ID: i32 = 55;

/// Capacitor capacity attribute ID (base capacitor value).
pub const ATTRIBUTE_CAPACITOR_CAPACITY_ID: i32 = 482;

/// Drone category ID (used to identify drone items).
pub const CATEGORY_ID_DRONES: i32 = 18;

/// Attribute IDs naming the skills an item depends on
/// (requiredSkill1, requiredSkill2, ...), in this order.
pub open spec fn spec_attribute_skills() -> Seq<i32> {
    seq![182i32, 183i32, 184i32, 1285i32, 1289i32, 1290i32]
}

/// The required-skill attribute IDs, in the order the engine consults them.
pub fn attribute_skills() -> (res: Vec<i32>)
    ensures
        res@ == spec_attribute_skills(),
{
    let res = vec![182i32, 183i32, 184i32, 1285i32, 1289i32, 1290i32];
    assert(res@ =~= spec_attribute_skills());
    res
}

/// Category IDs exempt from stacking penalties
/// (Ship / Charge / Skill / Implant / Subsystem).
pub open spec fn spec_exempt_penalty_category_ids() -> Seq<i32> {
    seq![6i32, 8i32, 16i32, 20i32, 32i32]
}

/// Whether items of `category_id` are exempt from stacking penalties.
pub fn is_penalty_exempt_category(category_id: i32) -> (res: bool)
    ensures
        res == spec_exempt_penalty_category_ids().contains(category_id),
{
    proof {
        let s = spec_exempt_penalty_category_ids();
        if s.contains(category_id) {
            let k = choose|k: int| 0 <= k < s.len() && s[k] == category_id;
        }
        assert(s[0] == 6 && s[1] == 8 && s[2] == 16 && s[3] == 20 && s[4] == 32);
    }
    category_id == 6 || category_id == 8 || category_id == 16 || category_id == 20
        || category_id == 32
}

} // verus!
