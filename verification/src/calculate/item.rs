//! Effect categories, operators, object handles and slots: the identifiers
//! by which the engine refers to the items of a fit.

use std::collections::HashMap;

use vstd::prelude::*;

use crate::fit::{ItemSlotType, ItemState};

verus! {

broadcast use vstd::std_specs::hash::group_hash_axioms;

/// Identifies the type behind a fitted item: either a plain type, or a
/// dynamic (mutated) item whose base type the fit records separately.
#[derive(Debug, Clone, Copy, PartialEq, Eq, Structural, Hash)]
pub enum ItemID {
    Item(i32),
    Dynamic(i32),
}

impl ItemID {
    /// Whether the type of this item can be resolved against the given
    /// base types of the dynamic items.
    pub open spec fn resolvable(self, dynamic_base_types: Map<i32, i32>) -> bool {
        match self {
            ItemID::Item(_) => true,
            ItemID::Dynamic(id) => dynamic_base_types.contains_key(id),
        }
    }

    /// The type ID of the item: its own type, or the base type recorded
    /// for the dynamic item.
    pub open spec fn spec_type_id(self, dynamic_base_types: Map<i32, i32>) -> i32 {
        match self {
            ItemID::Item(type_id) => type_id,
            ItemID::Dynamic(id) => dynamic_base_types[id],
        }
    }

    /// Resolves the type ID of this item. `dynamic_base_types` maps each
    /// dynamic item ID to its base type; a dynamic item must be present.
    pub fn as_type_id(&self, dynamic_base_types: &HashMap<i32, i32>) -> (res: i32)
        requires
            self.resolvable(dynamic_base_types@),
        ensures
            res == self.spec_type_id(dynamic_base_types@),
    {
        match self {
            ItemID::Item(type_id) => *type_id,
            ItemID::Dynamic(id) => *dynamic_base_types.get(id).unwrap(),
        }
    }
}

/// The ability set of a fighter squadron, as a bit set.
#[derive(Debug, Clone, Copy, PartialEq, Eq, Structural, Hash)]
pub struct FighterAbility {
    pub bits: u32,
}

impl FighterAbility {
    /// The union of two ability sets.
    pub fn union(self, other: Self) -> (res: Self)
        ensures
            res.bits == self.bits | other.bits,
    {
        FighterAbility { bits: self.bits | other.bits }
    }
}

#[derive(Debug, Clone, Copy, PartialEq, Eq, Structural, PartialOrd, Ord, Hash)]
pub enum EffectCategory {
    Passive,
    Online,
    Active,
    Overload,
    Target,
    Area,
    Dungeon,
    System,
}

impl EffectCategory {
    /// The position of the category in declaration order, by which
    /// categories compare.
    pub open spec fn level(self) -> int {
        match self {
            EffectCategory::Passive => 0,
            EffectCategory::Online => 1,
            EffectCategory::Active => 2,
            EffectCategory::Overload => 3,
            EffectCategory::Target => 4,
            EffectCategory::Area => 5,
            EffectCategory::Dungeon => 6,
            EffectCategory::System => 7,
        }
    }

    /// The category's position in declaration order.
    pub fn rank(&self) -> (res: u8)
        ensures
            res == self.level(),
    {
        match self {
            EffectCategory::Passive => 0,
            EffectCategory::Online => 1,
            EffectCategory::Active => 2,
            EffectCategory::Overload => 3,
            EffectCategory::Target => 4,
            EffectCategory::Area => 5,
            EffectCategory::Dungeon => 6,
            EffectCategory::System => 7,
        }
    }

    /// The category an item state enables.
    pub open spec fn of_state(state: ItemState) -> EffectCategory {
        match state {
            ItemState::Passive => EffectCategory::Passive,
            ItemState::Online => EffectCategory::Online,
            ItemState::Active => EffectCategory::Active,
            ItemState::Overload => EffectCategory::Overload,
        }
    }

    pub open spec fn spec_is_active(self) -> bool {
        self == EffectCategory::Active || self == EffectCategory::Overload
    }

    /// Whether the category is one in which a module is cycling.
    pub fn is_active(&self) -> (res: bool)
        ensures
            res == self.spec_is_active(),
    {
        match self {
            EffectCategory::Active | EffectCategory::Overload => true,
            _ => false,
        }
    }

    pub open spec fn spec_fallback_active(self) -> EffectCategory {
        match self {
            EffectCategory::Passive => EffectCategory::Passive,
            _ => EffectCategory::Active,
        }
    }

    /// Passive stays passive; every other category becomes active.
    pub fn fallback_active(&self) -> (res: Self)
        ensures
            res == self.spec_fallback_active(),
    {
        match self {
            EffectCategory::Passive => EffectCategory::Passive,
            _ => EffectCategory::Active,
        }
    }
}

impl From<ItemState> for EffectCategory {
    fn from(value: ItemState) -> (res: Self) {
        match value {
            ItemState::Passive => EffectCategory::Passive,
            ItemState::Online => EffectCategory::Online,
            ItemState::Active => EffectCategory::Active,
            ItemState::Overload => EffectCategory::Overload,
        }
    }
}

impl vstd::std_specs::convert::FromSpecImpl<ItemState> for EffectCategory {
    open spec fn obeys_from_spec() -> bool {
        true
    }

    open spec fn from_spec(v: ItemState) -> Self {
        EffectCategory::of_state(v)
    }
}

#[derive(Debug, Clone, Copy, PartialEq, Eq, Structural, Hash)]
pub enum EffectOperator {
    PreAssign,
    PreMul,
    PreDiv,
    ModAdd,
    ModSub,
    PostMul,
    PostDiv,
    PostPercent,
    PostAssign,
}

/// The operators in the order in which they are applied.
pub open spec fn spec_operator_order() -> Seq<EffectOperator> {
    seq![
        EffectOperator::PreAssign,
        EffectOperator::PreMul,
        EffectOperator::PreDiv,
        EffectOperator::ModAdd,
        EffectOperator::ModSub,
        EffectOperator::PostMul,
        EffectOperator::PostDiv,
        EffectOperator::PostPercent,
        EffectOperator::PostAssign,
    ]
}

impl EffectOperator {
    /// All operators, in the order in which they are applied to an
    /// attribute.
    pub fn iter() -> (res: Vec<EffectOperator>)
        ensures
            res@ == spec_operator_order(),
    {
        let res = vec![
            EffectOperator::PreAssign,
            EffectOperator::PreMul,
            EffectOperator::PreDiv,
            EffectOperator::ModAdd,
            EffectOperator::ModSub,
            EffectOperator::PostMul,
            EffectOperator::PostDiv,
            EffectOperator::PostPercent,
            EffectOperator::PostAssign,
        ];
        assert(res@ =~= spec_operator_order());
        res
    }
}

#[derive(Debug, Copy, Clone, PartialEq, Eq, Structural, Hash)]
pub enum Object {
    Ship,
    Item(usize),
    Implant(usize),
    Booster(usize),
    Charge(usize),
    Skill(usize),
    Character,
    Structure,
    Target,
}

#[derive(Debug, Clone, Copy, PartialEq, Eq, Structural)]
pub struct Effect {
    pub operator: EffectOperator,
    pub penalty: bool,
    pub source: Object,
    pub source_category: EffectCategory,
    pub source_attribute_id: i32,
}

#[derive(Debug, Copy, Clone, PartialEq, Eq, Structural, Hash)]
pub enum SlotType {
    High,
    Medium,
    Low,
    Rig,
    SubSystem,
    Service,
    TacticalMode,
    DroneBay { group_id: u8 },
    Fighter { group_id: u8 },
    Charge,
    Implant,
    Booster,
    Fake,
}

impl SlotType {
    /// The slot type of a fitted module slot.
    pub open spec fn of_item_slot(value: ItemSlotType) -> SlotType {
        match value {
            ItemSlotType::High => SlotType::High,
            ItemSlotType::Medium => SlotType::Medium,
            ItemSlotType::Low => SlotType::Low,
            ItemSlotType::Rig => SlotType::Rig,
            ItemSlotType::SubSystem => SlotType::SubSystem,
            ItemSlotType::Service => SlotType::Service,
            ItemSlotType::TacticalMode => SlotType::TacticalMode,
        }
    }
}

impl From<ItemSlotType> for SlotType {
    fn from(value: ItemSlotType) -> (res: Self) {
        match value {
            ItemSlotType::High => SlotType::High,
            ItemSlotType::Medium => SlotType::Medium,
            ItemSlotType::Low => SlotType::Low,
            ItemSlotType::Rig => SlotType::Rig,
            ItemSlotType::SubSystem => SlotType::SubSystem,
            ItemSlotType::Service => SlotType::Service,
            ItemSlotType::TacticalMode => SlotType::TacticalMode,
        }
    }
}

impl vstd::std_specs::convert::FromSpecImpl<ItemSlotType> for SlotType {
    open spec fn obeys_from_spec() -> bool {
        true
    }

    open spec fn from_spec(v: ItemSlotType) -> Self {
        SlotType::of_item_slot(v)
    }
}

#[derive(Debug, Copy, Clone, PartialEq, Eq, Structural, Hash)]
pub struct Slot {
    pub slot_type: SlotType,
    pub index: Option<i32>,
}

impl Slot {
    pub open spec fn spec_is_module(self) -> bool {
        match self.slot_type {
            SlotType::High | SlotType::Medium | SlotType::Low | SlotType::Rig
            | SlotType::SubSystem | SlotType::TacticalMode => true,
            _ => false,
        }
    }

    /// Whether the slot holds a fitted module (service slots excluded).
    pub fn is_module(&self) -> (res: bool)
        ensures
            res == self.spec_is_module(),
    {
        match self.slot_type {
            SlotType::High | SlotType::Medium | SlotType::Low | SlotType::Rig
            | SlotType::SubSystem | SlotType::TacticalMode => true,
            _ => false,
        }
    }
}

/// Categories are told apart by their levels; item states map onto the
/// first four categories in order; and the fallback of a category is
/// `Passive` exactly for `Passive`, `Active` otherwise.
pub proof fn lemma_category_levels(a: EffectCategory, b: EffectCategory, s: ItemState, t: ItemState)
    ensures
        a.level() == b.level() ==> a == b,
        0 <= a.level() <= 7,
        EffectCategory::of_state(s).level() <= EffectCategory::Overload.level(),
        EffectCategory::of_state(s) == EffectCategory::of_state(t) ==> s == t,
        (a.spec_fallback_active() == EffectCategory::Passive) == (a == EffectCategory::Passive),
        a != EffectCategory::Passive ==> a.spec_fallback_active() == EffectCategory::Active,
{
}

/// The operator order lists every operator exactly once.
pub proof fn lemma_operator_order_complete(op: EffectOperator)
    ensures
        spec_operator_order().contains(op),
        spec_operator_order().no_duplicates(),
        spec_operator_order().len() == 9,
{
    let s = spec_operator_order();
    match op {
        EffectOperator::PreAssign => assert(s[0] == op),
        EffectOperator::PreMul => assert(s[1] == op),
        EffectOperator::PreDiv => assert(s[2] == op),
        EffectOperator::ModAdd => assert(s[3] == op),
        EffectOperator::ModSub => assert(s[4] == op),
        EffectOperator::PostMul => assert(s[5] == op),
        EffectOperator::PostDiv => assert(s[6] == op),
        EffectOperator::PostPercent => assert(s[7] == op),
        EffectOperator::PostAssign => assert(s[8] == op),
    }
}

} // verus!
