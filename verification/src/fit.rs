//! The fit as the user describes it, and the static dogma data that the
//! engine reads: every type here holds identifiers, flags and states only.

use vstd::prelude::*;

use crate::calculate::item::{FighterAbility, ItemID};

verus! {

#[derive(Debug, Clone, Copy, PartialEq, Eq, Structural)]
pub struct TypeDogmaEffect {
    pub effect_id: i32,
    pub is_default: bool,
}

#[derive(Debug, Clone, Copy, PartialEq, Eq, Structural)]
pub enum DogmaEffectModifierInfoDomain {
    ItemID,
    ShipID,
    CharID,
    OtherID,
    StructureID,
    Target,
    TargetID,
}

/// The domain a raw data code names; unknown codes fall back to `ItemID`.
pub open spec fn spec_domain_from_code(code: i32) -> DogmaEffectModifierInfoDomain {
    if code == 1 {
        DogmaEffectModifierInfoDomain::ShipID
    } else if code == 2 {
        DogmaEffectModifierInfoDomain::CharID
    } else if code == 3 {
        DogmaEffectModifierInfoDomain::OtherID
    } else if code == 4 {
        DogmaEffectModifierInfoDomain::StructureID
    } else if code == 5 {
        DogmaEffectModifierInfoDomain::Target
    } else if code == 6 {
        DogmaEffectModifierInfoDomain::TargetID
    } else {
        DogmaEffectModifierInfoDomain::ItemID
    }
}

impl From<i32> for DogmaEffectModifierInfoDomain {
    fn from(value: i32) -> (res: Self) {
        match value {
            0 => Self::ItemID,
            1 => Self::ShipID,
            2 => Self::CharID,
            3 => Self::OtherID,
            4 => Self::StructureID,
            5 => Self::Target,
            6 => Self::TargetID,
            _ => Self::ItemID,
        }
    }
}

impl vstd::std_specs::convert::FromSpecImpl<i32> for DogmaEffectModifierInfoDomain {
    open spec fn obeys_from_spec() -> bool {
        true
    }

    open spec fn from_spec(v: i32) -> Self {
        spec_domain_from_code(v)
    }
}

#[derive(Debug, Clone, Copy, PartialEq, Eq, Structural)]
pub enum DogmaEffectModifierInfoFunc {
    ItemModifier,
    LocationGroupModifier,
    LocationModifier,
    LocationRequiredSkillModifier,
    OwnerRequiredSkillModifier,
    EffectStopper,
}

/// The modifier function a raw data code names; unknown codes fall back to
/// `ItemModifier`.
pub open spec fn spec_func_from_code(code: i32) -> DogmaEffectModifierInfoFunc {
    if code == 1 {
        DogmaEffectModifierInfoFunc::LocationGroupModifier
    } else if code == 2 {
        DogmaEffectModifierInfoFunc::LocationModifier
    } else if code == 3 {
        DogmaEffectModifierInfoFunc::LocationRequiredSkillModifier
    } else if code == 4 {
        DogmaEffectModifierInfoFunc::OwnerRequiredSkillModifier
    } else if code == 5 {
        DogmaEffectModifierInfoFunc::EffectStopper
    } else {
        DogmaEffectModifierInfoFunc::ItemModifier
    }
}

impl From<i32> for DogmaEffectModifierInfoFunc {
    fn from(value: i32) -> (res: Self) {
        match value {
            0 => Self::ItemModifier,
            1 => Self::LocationGroupModifier,
            2 => Self::LocationModifier,
            3 => Self::LocationRequiredSkillModifier,
            4 => Self::OwnerRequiredSkillModifier,
            5 => Self::EffectStopper,
            _ => Self::ItemModifier,
        }
    }
}

impl vstd::std_specs::convert::FromSpecImpl<i32> for DogmaEffectModifierInfoFunc {
    open spec fn obeys_from_spec() -> bool {
        true
    }

    open spec fn from_spec(v: i32) -> Self {
        spec_func_from_code(v)
    }
}

#[derive(Debug, Clone, Copy, PartialEq, Eq, Structural)]
pub struct DogmaEffectModifierInfo {
    pub domain: DogmaEffectModifierInfoDomain,
    pub func: DogmaEffectModifierInfoFunc,
    pub modified_attribute_id: Option<i32>,
    pub modifying_attribute_id: Option<i32>,
    pub operation: Option<i32>,
    pub group_id: Option<i32>,
    pub skill_type_id: Option<i32>,
}

#[derive(Debug, Clone)]
pub struct DogmaEffect {
    pub effect_category: i32,
    pub modifier_info: Vec<DogmaEffectModifierInfo>,
}

#[derive(Debug, Clone, Copy, PartialEq, Eq, Structural)]
pub struct BuffItemModifier {
    pub dogma_attribute_id: i32,
}

#[derive(Debug, Clone, Copy, PartialEq, Eq, Structural)]
pub struct BuffGroupModifier {
    pub dogma_attribute_id: i32,
    pub group_id: i32,
}

#[derive(Debug, Clone, Copy, PartialEq, Eq, Structural)]
pub struct BuffSkillModifier {
    pub dogma_attribute_id: i32,
    pub skill_id: i32,
}

#[derive(Debug, Clone, Copy, PartialEq, Eq, Structural)]
pub enum BuffAggregateMode {
    Maximum,
    Minimum,
}

#[derive(Debug, Clone, Copy, PartialEq, Eq, Structural)]
pub enum BuffOperation {
    PreAssign,
    PreMul,
    PreDiv,
    ModAdd,
    ModSub,
    PostMul,
    PostDiv,
    PostPercent,
    PostAssign,
}

#[derive(Debug, Clone)]
pub struct Buff {
    pub aggregate_mode: BuffAggregateMode,
    pub item_modifiers: Vec<BuffItemModifier>,
    pub location_modifiers: Vec<BuffItemModifier>,
    pub location_group_modifiers: Vec<BuffGroupModifier>,
    pub location_required_skill_modifiers: Vec<BuffSkillModifier>,
    /// Modifiers applied to the charge of an equipped module when the
    /// charge requires the given skill. Only used by hand-authored data
    /// patches (system-wide effects); client data has no such modifiers.
    pub charge_required_skill_modifiers: Vec<BuffSkillModifier>,
    /// Whether this buff participates in stacking penalties.
    pub penalized: bool,
    pub operation: BuffOperation,
}

impl Buff {
    /// Whether the buff carries no modifier of any kind, so that
    /// registering it anywhere changes nothing.
    pub open spec fn has_no_modifiers(self) -> bool {
        &&& self.item_modifiers@.len() == 0
        &&& self.location_modifiers@.len() == 0
        &&& self.location_group_modifiers@.len() == 0
        &&& self.location_required_skill_modifiers@.len() == 0
        &&& self.charge_required_skill_modifiers@.len() == 0
    }

    /// A buff with no modifiers: registering it on any attribute is a
    /// complete no-op. Used as the placeholder for buff IDs missing from the
    /// loaded data (e.g. stale snapshots or corrupt input), so missing buffs
    /// degrade silently instead of panicking.
    pub fn noop() -> (res: Self)
        ensures
            res.has_no_modifiers(),
            res.aggregate_mode == BuffAggregateMode::Maximum,
            res.penalized,
            res.operation == BuffOperation::PostAssign,
    {
        Self {
            aggregate_mode: BuffAggregateMode::Maximum,
            item_modifiers: Vec::new(),
            location_modifiers: Vec::new(),
            location_group_modifiers: Vec::new(),
            location_required_skill_modifiers: Vec::new(),
            charge_required_skill_modifiers: Vec::new(),
            penalized: true,
            operation: BuffOperation::PostAssign,
        }
    }
}

#[derive(Debug, Clone, Copy, PartialEq, Eq, Structural)]
pub enum ItemState {
    Passive,
    Online,
    Active,
    Overload,
}

#[derive(Debug, Clone, Copy, PartialEq, Eq, Structural)]
pub enum ItemSlotType {
    High,
    Medium,
    Low,
    Rig,
    SubSystem,
    Service,
    TacticalMode,
}

#[derive(Debug, Clone, Copy, PartialEq, Eq, Structural)]
pub struct ItemCharge {
    pub type_id: i32,
}

#[derive(Debug, Clone, Copy, PartialEq, Eq, Structural)]
pub struct ItemSlot {
    pub slot_type: ItemSlotType,
    pub index: i32,
}

#[derive(Debug, Clone, Copy, PartialEq, Eq, Structural)]
pub struct ItemModule {
    pub item_id: ItemID,
    pub slot: ItemSlot,
    pub state: ItemState,
    pub charge: Option<ItemCharge>,
    /// Number of completed damage ramp-up cycles of a precursor turret
    /// (0 = first shot, base damage).
    pub damage_turns: u32,
}

#[derive(Debug, Clone, Copy, PartialEq, Eq, Structural)]
pub struct ItemDrone {
    pub item_id: ItemID,
    pub group_id: u8,
    pub state: ItemState,
}

#[derive(Debug, Clone, Copy, PartialEq, Eq, Structural)]
pub struct ItemFighter {
    pub type_id: i32,
    pub group_id: u8,
    pub ability: FighterAbility,
}

#[derive(Debug, Clone, Copy, PartialEq, Eq, Structural)]
pub struct ItemImplant {
    pub type_id: i32,
    pub index: i32,
}

#[derive(Debug, Clone, Copy, PartialEq, Eq, Structural)]
pub struct ItemBooster {
    pub type_id: i32,
    pub index: i32,
}

} // verus!
