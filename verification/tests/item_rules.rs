use std::collections::HashMap;

use eve_fit_os::calculate::item::{
    EffectCategory, EffectOperator, FighterAbility, ItemID, Slot, SlotType,
};
use eve_fit_os::calculate::pass_5::{
    effect_is_live, is_resonance_attribute, operator_has_penalty,
};
use eve_fit_os::constant::{attribute_skills, is_penalty_exempt_category};
use eve_fit_os::fit::{
    Buff, BuffAggregateMode, BuffOperation, DogmaEffectModifierInfoDomain,
    DogmaEffectModifierInfoFunc, ItemSlotType, ItemState,
};

#[test]
fn effect_category_is_active() {
    assert!(EffectCategory::Active.is_active());
    assert!(EffectCategory::Overload.is_active());
    assert!(!EffectCategory::Passive.is_active());
    assert!(!EffectCategory::Online.is_active());
    assert!(!EffectCategory::Target.is_active());
    assert!(!EffectCategory::System.is_active());
}

#[test]
fn effect_category_fallback_active() {
    assert_eq!(EffectCategory::Passive.fallback_active(), EffectCategory::Passive);
    assert_eq!(EffectCategory::Online.fallback_active(), EffectCategory::Active);
    assert_eq!(EffectCategory::Active.fallback_active(), EffectCategory::Active);
    assert_eq!(EffectCategory::Overload.fallback_active(), EffectCategory::Active);
    assert_eq!(EffectCategory::Dungeon.fallback_active(), EffectCategory::Active);
}

#[test]
fn effect_category_rank_follows_declaration_order() {
    let all = [
        EffectCategory::Passive,
        EffectCategory::Online,
        EffectCategory::Active,
        EffectCategory::Overload,
        EffectCategory::Target,
        EffectCategory::Area,
        EffectCategory::Dungeon,
        EffectCategory::System,
    ];
    for (index, category) in all.iter().enumerate() {
        assert_eq!(category.rank() as usize, index);
    }
    for a in all {
        for b in all {
            assert_eq!(a.rank() < b.rank(), a < b);
        }
    }
}

#[test]
fn effect_category_from_item_state() {
    assert_eq!(EffectCategory::from(ItemState::Passive), EffectCategory::Passive);
    assert_eq!(EffectCategory::from(ItemState::Online), EffectCategory::Online);
    assert_eq!(EffectCategory::from(ItemState::Active), EffectCategory::Active);
    assert_eq!(EffectCategory::from(ItemState::Overload), EffectCategory::Overload);
}

#[test]
fn effect_operator_order() {
    assert_eq!(
        EffectOperator::iter(),
        vec![
            EffectOperator::PreAssign,
            EffectOperator::PreMul,
            EffectOperator::PreDiv,
            EffectOperator::ModAdd,
            EffectOperator::ModSub,
            EffectOperator::PostMul,
            EffectOperator::PostDiv,
            EffectOperator::PostPercent,
            EffectOperator::PostAssign,
        ]
    );
}

#[test]
fn slot_is_module() {
    let slot = |slot_type| Slot { slot_type, index: Some(0) };
    for slot_type in [
        SlotType::High,
        SlotType::Medium,
        SlotType::Low,
        SlotType::Rig,
        SlotType::SubSystem,
        SlotType::TacticalMode,
    ] {
        assert!(slot(slot_type).is_module());
    }
    for slot_type in [
        SlotType::Service,
        SlotType::DroneBay { group_id: 1 },
        SlotType::Fighter { group_id: 1 },
        SlotType::Charge,
        SlotType::Implant,
        SlotType::Booster,
        SlotType::Fake,
    ] {
        assert!(!slot(slot_type).is_module());
    }
}

#[test]
fn slot_type_from_item_slot_type() {
    assert_eq!(SlotType::from(ItemSlotType::High), SlotType::High);
    assert_eq!(SlotType::from(ItemSlotType::Service), SlotType::Service);
    assert_eq!(SlotType::from(ItemSlotType::TacticalMode), SlotType::TacticalMode);
}

#[test]
fn item_id_resolves_dynamic_items() {
    let mut dynamic = HashMap::new();
    dynamic.insert(1, 603);
    assert_eq!(ItemID::Item(1877).as_type_id(&dynamic), 1877);
    assert_eq!(ItemID::Dynamic(1).as_type_id(&dynamic), 603);
}

#[test]
fn fighter_ability_union() {
    let a = FighterAbility { bits: 0b0101 };
    let b = FighterAbility { bits: 0b0011 };
    assert_eq!(a.union(b).bits, 0b0111);
}

#[test]
fn buff_noop_has_no_modifiers() {
    let buff = Buff::noop();
    assert!(buff.item_modifiers.is_empty());
    assert!(buff.location_modifiers.is_empty());
    assert!(buff.location_group_modifiers.is_empty());
    assert!(buff.location_required_skill_modifiers.is_empty());
    assert!(buff.charge_required_skill_modifiers.is_empty());
    assert!(buff.penalized);
    assert_eq!(buff.aggregate_mode, BuffAggregateMode::Maximum);
    assert_eq!(buff.operation, BuffOperation::PostAssign);
}

#[test]
fn modifier_codes() {
    assert_eq!(DogmaEffectModifierInfoDomain::from(0), DogmaEffectModifierInfoDomain::ItemID);
    assert_eq!(DogmaEffectModifierInfoDomain::from(3), DogmaEffectModifierInfoDomain::OtherID);
    assert_eq!(DogmaEffectModifierInfoDomain::from(6), DogmaEffectModifierInfoDomain::TargetID);
    assert_eq!(DogmaEffectModifierInfoDomain::from(42), DogmaEffectModifierInfoDomain::ItemID);
    assert_eq!(DogmaEffectModifierInfoFunc::from(2), DogmaEffectModifierInfoFunc::LocationModifier);
    assert_eq!(
        DogmaEffectModifierInfoFunc::from(4),
        DogmaEffectModifierInfoFunc::OwnerRequiredSkillModifier
    );
    assert_eq!(DogmaEffectModifierInfoFunc::from(5), DogmaEffectModifierInfoFunc::EffectStopper);
    assert_eq!(DogmaEffectModifierInfoFunc::from(-3), DogmaEffectModifierInfoFunc::ItemModifier);
}

#[test]
fn constants() {
    assert_eq!(attribute_skills(), vec![182, 183, 184, 1285, 1289, 1290]);
    for category in [6, 8, 16, 20, 32] {
        assert!(is_penalty_exempt_category(category));
    }
    for category in [7, 18, 0, -6] {
        assert!(!is_penalty_exempt_category(category));
    }
}

#[test]
fn penalised_operators() {
    let penalised: Vec<bool> = EffectOperator::iter()
        .into_iter()
        .map(operator_has_penalty)
        .collect();
    assert_eq!(
        penalised,
        vec![false, true, true, false, false, true, true, true, false]
    );
}

#[test]
fn resonance_attributes() {
    for id in [271, 272, 273, 274, 267, 268, 269, 270, 113, 111, 109, 110] {
        assert!(is_resonance_attribute(id));
    }
    for id in [266, 275, 112, 108, 114, 64] {
        assert!(!is_resonance_attribute(id));
    }
}

#[test]
fn live_effects() {
    assert!(effect_is_live(EffectCategory::Passive, EffectCategory::Passive));
    assert!(effect_is_live(EffectCategory::Active, EffectCategory::Overload));
    assert!(!effect_is_live(EffectCategory::Overload, EffectCategory::Active));
    assert!(!effect_is_live(EffectCategory::Online, EffectCategory::Passive));
}

#[test]
fn buff_operation_maps_to_operator() {
    assert_eq!(EffectOperator::from(BuffOperation::PreMul), EffectOperator::PreMul);
    assert_eq!(EffectOperator::from(BuffOperation::PostPercent), EffectOperator::PostPercent);
    assert_eq!(EffectOperator::from(BuffOperation::ModSub), EffectOperator::ModSub);
}

use eve_fit_os::calculate::item::{Effect, Object};
use eve_fit_os::calculate::pass_5::{buff_stacking, effect_stacking, Stacking};

fn effect(operator: EffectOperator, penalty: bool, category: EffectCategory) -> Effect {
    Effect {
        operator,
        penalty,
        source: Object::Item(0),
        source_category: category,
        source_attribute_id: 20,
    }
}

#[test]
fn effect_stacking_steps() {
    let e = effect(EffectOperator::PostPercent, true, EffectCategory::Active);
    assert_eq!(
        effect_stacking(&e, EffectOperator::PostPercent, Some(EffectCategory::Active)),
        Some(Stacking::Penalized)
    );
    assert_eq!(effect_stacking(&e, EffectOperator::PostMul, Some(EffectCategory::Active)), None);
    assert_eq!(effect_stacking(&e, EffectOperator::PostPercent, Some(EffectCategory::Online)), None);
    assert_eq!(effect_stacking(&e, EffectOperator::PostPercent, None), None);
    let e = effect(EffectOperator::PostPercent, false, EffectCategory::Passive);
    assert_eq!(
        effect_stacking(&e, EffectOperator::PostPercent, Some(EffectCategory::Passive)),
        Some(Stacking::Plain)
    );
    let e = effect(EffectOperator::ModAdd, true, EffectCategory::Passive);
    assert_eq!(
        effect_stacking(&e, EffectOperator::ModAdd, Some(EffectCategory::Online)),
        Some(Stacking::Plain)
    );
}

#[test]
fn buff_stacking_steps() {
    let mut buff = Buff::noop();
    buff.operation = BuffOperation::PostPercent;
    assert_eq!(buff_stacking(&buff, EffectOperator::PostPercent), Some(Stacking::Penalized));
    assert_eq!(buff_stacking(&buff, EffectOperator::PostMul), None);
    buff.penalized = false;
    assert_eq!(buff_stacking(&buff, EffectOperator::PostPercent), Some(Stacking::Plain));
    buff.operation = BuffOperation::PostAssign;
    buff.penalized = true;
    assert_eq!(buff_stacking(&buff, EffectOperator::PostAssign), Some(Stacking::Plain));
}

use eve_fit_os::calculate::pass_6::{draws_capacitor, find_slot};

#[test]
fn capacitor_consumers() {
    let high = Slot { slot_type: SlotType::High, index: Some(0) };
    let drone = Slot { slot_type: SlotType::DroneBay { group_id: 1 }, index: None };
    assert!(draws_capacitor(&high, EffectCategory::Active, true, false, true));
    assert!(draws_capacitor(&high, EffectCategory::Overload, false, true, true));
    assert!(!draws_capacitor(&high, EffectCategory::Online, true, false, true));
    assert!(!draws_capacitor(&high, EffectCategory::Active, false, false, true));
    assert!(!draws_capacitor(&high, EffectCategory::Active, true, true, false));
    assert!(!draws_capacitor(&drone, EffectCategory::Active, true, false, true));
}

#[test]
fn slot_lookup() {
    let slots = vec![
        Slot { slot_type: SlotType::High, index: Some(0) },
        Slot { slot_type: SlotType::Low, index: Some(1) },
        Slot { slot_type: SlotType::High, index: Some(1) },
        Slot { slot_type: SlotType::High, index: Some(1) },
        Slot { slot_type: SlotType::DroneBay { group_id: 1 }, index: None },
    ];
    assert_eq!(find_slot(&slots, SlotType::High, 1), Some(2));
    assert_eq!(find_slot(&slots, SlotType::Low, 1), Some(1));
    assert_eq!(find_slot(&slots, SlotType::Low, 0), None);
    assert_eq!(find_slot(&slots, SlotType::Medium, 0), None);
}
