use eve_fit_os::calculate::pass_2::TargetInfo;
use eve_fit_os::calculate::pass_4::{
    charge_attributes, holder_attributes, location_attributes, WARFARE_BUFFS,
};
use eve_fit_os::fit::{
    Buff, BuffAggregateMode, BuffGroupModifier, BuffItemModifier, BuffOperation,
    BuffSkillModifier,
};

fn buff() -> Buff {
    Buff {
        aggregate_mode: BuffAggregateMode::Minimum,
        item_modifiers: vec![
            BuffItemModifier { dogma_attribute_id: 271 },
            BuffItemModifier { dogma_attribute_id: 272 },
        ],
        location_modifiers: vec![BuffItemModifier { dogma_attribute_id: 54 }],
        location_group_modifiers: vec![
            BuffGroupModifier { dogma_attribute_id: 64, group_id: 55 },
            BuffGroupModifier { dogma_attribute_id: 51, group_id: 74 },
        ],
        location_required_skill_modifiers: vec![
            BuffSkillModifier { dogma_attribute_id: 84, skill_id: 3393 },
            BuffSkillModifier { dogma_attribute_id: 73, skill_id: -1 },
        ],
        charge_required_skill_modifiers: vec![BuffSkillModifier {
            dogma_attribute_id: 114,
            skill_id: 3319,
        }],
        penalized: true,
        operation: BuffOperation::PostPercent,
    }
}

fn item(type_id: i32, group_id: i32, skills: Vec<Option<i32>>) -> TargetInfo {
    TargetInfo { type_id, group_id, required_skills: skills }
}

#[test]
fn warfare_buff_pairs() {
    assert_eq!(
        WARFARE_BUFFS,
        [(2468, 2469), (2470, 2471), (2472, 2473), (2536, 2537)]
    );
}

#[test]
fn holder_gets_item_modifiers_only() {
    assert_eq!(holder_attributes(&buff()), vec![271, 272]);
}

#[test]
fn located_items_get_location_modifiers() {
    let buff = buff();
    // Armor repairer in group 62 requiring repair systems (3393).
    let repairer = item(3530, 62, vec![Some(3393), None, None, None, None, None]);
    assert_eq!(location_attributes(&buff, &repairer), vec![54, 84]);
    // A turret of group 55 requiring its own type (skill -1 match).
    let turret = item(2929, 55, vec![None, Some(2929), None, None, None, None]);
    assert_eq!(location_attributes(&buff, &turret), vec![54, 64, 73]);
    // An item without required skills only gets the plain location modifiers.
    let rig = item(31790, 774, vec![]);
    assert_eq!(location_attributes(&buff, &rig), vec![54]);
}

#[test]
fn charges_get_charge_modifiers_only() {
    let buff = buff();
    let missile = item(2613, 384, vec![Some(3319), None, None, None, None, None]);
    assert_eq!(charge_attributes(&buff, &missile), vec![114]);
    let projectile = item(193, 83, vec![Some(3300), None, None, None, None, None]);
    assert!(charge_attributes(&buff, &projectile).is_empty());
}

#[test]
fn noop_buff_registers_nothing() {
    let buff = Buff::noop();
    let turret = item(2929, 55, vec![Some(2929), None, None, None, None, None]);
    assert!(holder_attributes(&buff).is_empty());
    assert!(location_attributes(&buff, &turret).is_empty());
    assert!(charge_attributes(&buff, &turret).is_empty());
}
