use eve_fit_os::calculate::item::{EffectCategory, EffectOperator, Object, SlotType};
use eve_fit_os::calculate::pass_2::{
    collect_effects, effect_targets, get_effect_category, get_effect_operator,
    get_modifier_func, get_target_object, new_effect, EffectHolder, Modifier, ModuleInfo,
    Pass2Effect, ShipLayout, TargetInfo,
};
use eve_fit_os::fit::{
    DogmaEffect, DogmaEffectModifierInfo, DogmaEffectModifierInfoDomain as Domain,
    DogmaEffectModifierInfoFunc as Func,
};

fn modifier(domain: Domain, func: Func, operation: i32) -> DogmaEffectModifierInfo {
    DogmaEffectModifierInfo {
        domain,
        func,
        modified_attribute_id: Some(64),
        modifying_attribute_id: Some(292),
        operation: Some(operation),
        group_id: Some(55),
        skill_type_id: Some(3300),
    }
}

fn holder(state: EffectCategory, max_state: EffectCategory) -> EffectHolder {
    EffectHolder { state, max_state, effects: vec![] }
}

#[test]
fn modifier_funcs() {
    assert_eq!(
        get_modifier_func(Func::LocationRequiredSkillModifier, Some(3300), None),
        Some(Modifier::LocationRequiredSkillModifier(3300))
    );
    assert_eq!(get_modifier_func(Func::LocationRequiredSkillModifier, None, Some(1)), None);
    assert_eq!(
        get_modifier_func(Func::LocationGroupModifier, None, Some(55)),
        Some(Modifier::LocationGroupModifier(55))
    );
    assert_eq!(get_modifier_func(Func::LocationGroupModifier, Some(1), None), None);
    assert_eq!(get_modifier_func(Func::LocationModifier, None, None), Some(Modifier::LocationModifier));
    assert_eq!(get_modifier_func(Func::ItemModifier, None, None), Some(Modifier::ItemModifier));
    assert_eq!(
        get_modifier_func(Func::OwnerRequiredSkillModifier, Some(-1), None),
        Some(Modifier::OwnerRequiredSkillModifier(-1))
    );
    assert_eq!(get_modifier_func(Func::EffectStopper, Some(1), Some(1)), None);
}

#[test]
fn target_objects() {
    assert_eq!(get_target_object(Domain::ShipID, Object::Item(2)), Object::Ship);
    assert_eq!(get_target_object(Domain::CharID, Object::Item(2)), Object::Character);
    assert_eq!(get_target_object(Domain::OtherID, Object::Item(2)), Object::Charge(2));
    assert_eq!(get_target_object(Domain::OtherID, Object::Charge(3)), Object::Item(3));
    assert_eq!(get_target_object(Domain::StructureID, Object::Ship), Object::Structure);
    assert_eq!(get_target_object(Domain::ItemID, Object::Skill(4)), Object::Skill(4));
    assert_eq!(get_target_object(Domain::Target, Object::Ship), Object::Target);
    assert_eq!(get_target_object(Domain::TargetID, Object::Ship), Object::Target);
}

#[test]
fn effect_categories() {
    let expected = [
        EffectCategory::Passive,
        EffectCategory::Active,
        EffectCategory::Target,
        EffectCategory::Area,
        EffectCategory::Online,
        EffectCategory::Overload,
        EffectCategory::Dungeon,
        EffectCategory::System,
    ];
    for (code, category) in expected.into_iter().enumerate() {
        assert_eq!(get_effect_category(code as i32), category);
    }
}

#[test]
fn effect_operators() {
    assert_eq!(get_effect_operator(-1), Some(EffectOperator::PreAssign));
    assert_eq!(get_effect_operator(0), Some(EffectOperator::PreMul));
    assert_eq!(get_effect_operator(2), Some(EffectOperator::ModAdd));
    assert_eq!(get_effect_operator(6), Some(EffectOperator::PostPercent));
    assert_eq!(get_effect_operator(7), Some(EffectOperator::PostAssign));
    assert_eq!(get_effect_operator(9), None);
}

fn sample_effect(modifier: Modifier, target: Object) -> Pass2Effect {
    Pass2Effect {
        modifier,
        operator: EffectOperator::PostPercent,
        source: Object::Item(0),
        source_category: EffectCategory::Online,
        source_attribute_id: 292,
        target,
        target_attribute_id: 64,
    }
}

#[test]
fn effect_penalty() {
    let effect = sample_effect(Modifier::ItemModifier, Object::Ship);
    let penalised = new_effect(&effect, false, 7);
    assert!(penalised.penalty);
    assert_eq!(penalised.operator, EffectOperator::PostPercent);
    assert_eq!(penalised.source, Object::Item(0));
    assert_eq!(penalised.source_category, EffectCategory::Online);
    assert_eq!(penalised.source_attribute_id, 292);
    // Stackable attributes and exempt categories (ship, charge, skill,
    // implant, subsystem) are not penalised.
    assert!(!new_effect(&effect, true, 7).penalty);
    for category in [6, 8, 16, 20, 32] {
        assert!(!new_effect(&effect, false, category).penalty);
    }
}

#[test]
fn collect_effects_of_a_module() {
    let entries = vec![
        // An online effect modifying the ship.
        (
            10,
            DogmaEffect {
                effect_category: 4,
                modifier_info: vec![modifier(Domain::ShipID, Func::ItemModifier, 6)],
            },
        ),
        // An active effect with a skill-level operation (ignored), a stopper
        // (ignored) and a modifier of the missing charge (skipped).
        (
            11,
            DogmaEffect {
                effect_category: 1,
                modifier_info: vec![
                    modifier(Domain::ItemID, Func::ItemModifier, 9),
                    modifier(Domain::ItemID, Func::EffectStopper, 0),
                    modifier(Domain::OtherID, Func::ItemModifier, 0),
                ],
            },
        ),
        // A plain effect without modifiers.
        (12, DogmaEffect { effect_category: 0, modifier_info: vec![] }),
        // A target effect does not raise the maximum state.
        (13, DogmaEffect { effect_category: 2, modifier_info: vec![] }),
    ];
    let mut h = holder(EffectCategory::Overload, EffectCategory::Passive);
    let mut effects = vec![];
    collect_effects(&entries, Object::Item(3), false, false, &mut h, &mut effects);
    assert_eq!(
        effects,
        vec![Pass2Effect {
            modifier: Modifier::ItemModifier,
            operator: EffectOperator::PostPercent,
            source: Object::Item(3),
            source_category: EffectCategory::Online,
            source_attribute_id: 292,
            target: Object::Ship,
            target_attribute_id: 64,
        }]
    );
    assert_eq!(h.effects, vec![12, 13]);
    assert_eq!(h.max_state, EffectCategory::Active);
    assert_eq!(h.state, EffectCategory::Active);
}

#[test]
fn collect_effects_with_charge_and_capacitor_need() {
    let entries = vec![(
        20,
        DogmaEffect {
            effect_category: 0,
            modifier_info: vec![modifier(Domain::OtherID, Func::LocationGroupModifier, 2)],
        },
    )];
    let mut h = holder(EffectCategory::Overload, EffectCategory::Passive);
    let mut effects = vec![];
    collect_effects(&entries, Object::Item(1), true, true, &mut h, &mut effects);
    assert_eq!(effects.len(), 1);
    assert_eq!(effects[0].target, Object::Charge(1));
    assert_eq!(effects[0].modifier, Modifier::LocationGroupModifier(55));
    assert_eq!(effects[0].operator, EffectOperator::ModAdd);
    // An item needing capacitor can at least be activated.
    assert_eq!(h.max_state, EffectCategory::Active);
    assert_eq!(h.state, EffectCategory::Active);

    // A charge's "other" item is its module.
    let mut charge = holder(EffectCategory::Active, EffectCategory::Active);
    let mut effects = vec![];
    collect_effects(&entries, Object::Charge(1), false, false, &mut charge, &mut effects);
    assert_eq!(effects[0].target, Object::Item(1));
    assert_eq!(charge.state, EffectCategory::Active);
}

#[test]
fn collect_effects_keeps_lower_states() {
    let entries = vec![(30, DogmaEffect { effect_category: 5, modifier_info: vec![] })];
    let mut h = holder(EffectCategory::Online, EffectCategory::Passive);
    let mut effects = vec![];
    collect_effects(&entries, Object::Ship, false, false, &mut h, &mut effects);
    assert_eq!(h.max_state, EffectCategory::Overload);
    assert_eq!(h.state, EffectCategory::Online);
    assert!(effects.is_empty());
}

fn target(type_id: i32, group_id: i32, skills: Vec<Option<i32>>) -> TargetInfo {
    TargetInfo { type_id, group_id, required_skills: skills }
}

fn layout() -> ShipLayout {
    ShipLayout {
        hull: target(628, 419, vec![Some(3339), None, None, None, None, None]),
        modules: vec![
            // A fitted turret requiring gunnery (3300) and, secondarily, drones (3436).
            ModuleInfo {
                item: target(2929, 55, vec![Some(3300), Some(3436), None, None, None, None]),
                slot_type: SlotType::High,
                charge: Some(target(12612, 85, vec![Some(3300), None, None, None, None, None])),
            },
            // A drone requiring drones (3436).
            ModuleInfo {
                item: target(2456, 100, vec![Some(3436), None, None, None, None, None]),
                slot_type: SlotType::DroneBay { group_id: 100 },
                charge: None,
            },
            // A launcher in the same group as the turret, without a charge.
            ModuleInfo {
                item: target(1877, 55, vec![None, None, None, None, None, None]),
                slot_type: SlotType::High,
                charge: None,
            },
        ],
        implants: vec![target(27252, 300, vec![Some(3436), None, None, None, None, None])],
        boosters: vec![46001],
        skills: vec![3300, 3436],
    }
}

#[test]
fn source_type_ids() {
    let layout = layout();
    assert_eq!(layout.source_type_id(Object::Ship), Some(628));
    assert_eq!(layout.source_type_id(Object::Item(1)), Some(2456));
    assert_eq!(layout.source_type_id(Object::Charge(0)), Some(12612));
    assert_eq!(layout.source_type_id(Object::Implant(0)), Some(27252));
    assert_eq!(layout.source_type_id(Object::Booster(0)), Some(46001));
    assert_eq!(layout.source_type_id(Object::Skill(1)), Some(3436));
    assert_eq!(layout.source_type_id(Object::Character), Some(1373));
    assert_eq!(layout.source_type_id(Object::Structure), None);
    assert_eq!(layout.source_type_id(Object::Target), None);
}

#[test]
fn item_modifier_targets_its_target() {
    let layout = layout();
    let effect = sample_effect(Modifier::ItemModifier, Object::Charge(0));
    assert_eq!(effect_targets(&layout, &effect, 1), vec![Object::Charge(0)]);
}

#[test]
fn location_modifier_targets_hull_modules_and_charges() {
    let layout = layout();
    let effect = sample_effect(Modifier::LocationModifier, Object::Ship);
    assert_eq!(
        effect_targets(&layout, &effect, 1),
        vec![
            Object::Ship,
            Object::Item(0),
            Object::Charge(0),
            Object::Item(1),
            Object::Item(2),
        ]
    );
}

#[test]
fn group_modifier_targets_matching_groups() {
    let layout = layout();
    let effect = sample_effect(Modifier::LocationGroupModifier(55), Object::Ship);
    assert_eq!(effect_targets(&layout, &effect, 1), vec![Object::Item(0), Object::Item(2)]);
    let effect = sample_effect(Modifier::LocationGroupModifier(419), Object::Ship);
    assert_eq!(effect_targets(&layout, &effect, 1), vec![Object::Ship]);
    let effect = sample_effect(Modifier::LocationGroupModifier(85), Object::Ship);
    assert_eq!(effect_targets(&layout, &effect, 1), vec![Object::Charge(0)]);
}

#[test]
fn location_skill_modifier_targets_items_requiring_the_skill() {
    let layout = layout();
    let effect = sample_effect(Modifier::LocationRequiredSkillModifier(3300), Object::Ship);
    assert_eq!(effect_targets(&layout, &effect, 1), vec![Object::Item(0), Object::Charge(0)]);
    // The drones skill is the turret's second required skill: the turret is
    // reached through the second attribute, after the first-attribute hits.
    let effect = sample_effect(Modifier::LocationRequiredSkillModifier(3436), Object::Ship);
    assert_eq!(
        effect_targets(&layout, &effect, 1),
        vec![Object::Item(1), Object::Implant(0), Object::Item(0)]
    );
    // -1 stands for the source's own type.
    let effect = sample_effect(Modifier::LocationRequiredSkillModifier(-1), Object::Ship);
    assert_eq!(effect_targets(&layout, &effect, 3339), vec![Object::Ship]);
}

#[test]
fn owner_skill_modifier_skips_fitted_modules() {
    let layout = layout();
    // The turret requires drones as its secondary skill, like the
    // Khryseos stabilizer: an owner-gated drone bonus reaches the drone
    // only, never the fitted module.
    let effect = sample_effect(Modifier::OwnerRequiredSkillModifier(3436), Object::Ship);
    assert_eq!(effect_targets(&layout, &effect, 1), vec![Object::Item(1)]);
    // Charges requiring the skill are reached.
    let effect = sample_effect(Modifier::OwnerRequiredSkillModifier(3300), Object::Ship);
    assert_eq!(effect_targets(&layout, &effect, 1), vec![Object::Charge(0)]);
    // The hull never is.
    let effect = sample_effect(Modifier::OwnerRequiredSkillModifier(3339), Object::Ship);
    assert!(effect_targets(&layout, &effect, 1).is_empty());
}

#[test]
fn repeated_required_skill_registers_twice() {
    let mut layout = layout();
    layout.implants[0].required_skills = vec![Some(3436), Some(3436)];
    let effect = sample_effect(Modifier::LocationRequiredSkillModifier(3436), Object::Ship);
    assert_eq!(
        effect_targets(&layout, &effect, 1),
        vec![Object::Item(1), Object::Implant(0), Object::Item(0), Object::Implant(0)]
    );
}
