use eve_fit_os::calculate::item::{EffectCategory, SlotType};
use eve_fit_os::calculate::item::ItemID;
use eve_fit_os::fit::{ItemModule, ItemSlot, ItemSlotType, ItemState, TypeDogmaEffect};
use eve_fit_os::validate::{
    is_primary_module_slot, output_validation_slot_type, validate_booster_slots,
    charge_checked_items, validate_charge, validate_fighter_capacity, validate_fit_targets,
    validate_industrial_core, validate_max_active_groups, validate_module_states,
    validate_rig_sizes, validate_slot_counts, validation_slot_type, BoosterSlotCheck,
    ChargeCheck, FighterCapacity, FighterSquadron, FitTargetCheck, GroupLimitItem,
    HardpointCheck, IdAttribute, IndustrialCoreCheck, LoadedCharge, RigSizeCheck,
    ValidationErrorKey,
    ValidationIssue, ValidationIssueKind, ValidationSlotType, ValidationState,
    ValidationWarningKey,
};

fn error(slot_type: ValidationSlotType, index: Option<i32>, key: ValidationErrorKey) -> ValidationIssue {
    ValidationIssue { slot_type, index, kind: ValidationIssueKind::Error(key) }
}

#[test]
fn slot_type_mappings() {
    assert_eq!(validation_slot_type(ItemSlotType::High), Some(ValidationSlotType::High));
    assert_eq!(validation_slot_type(ItemSlotType::Rig), Some(ValidationSlotType::Rig));
    assert_eq!(
        validation_slot_type(ItemSlotType::TacticalMode),
        Some(ValidationSlotType::TacticalMode)
    );
    assert_eq!(
        output_validation_slot_type(SlotType::DroneBay { group_id: 3 }),
        Some(ValidationSlotType::Drone)
    );
    assert_eq!(
        output_validation_slot_type(SlotType::Fighter { group_id: 3 }),
        Some(ValidationSlotType::Fighter)
    );
    assert_eq!(output_validation_slot_type(SlotType::Booster), Some(ValidationSlotType::Booster));
    assert_eq!(output_validation_slot_type(SlotType::Charge), None);
    assert_eq!(output_validation_slot_type(SlotType::Fake), None);
    assert!(is_primary_module_slot(SlotType::High));
    assert!(is_primary_module_slot(SlotType::Medium));
    assert!(is_primary_module_slot(SlotType::Low));
    assert!(!is_primary_module_slot(SlotType::Rig));
    assert!(!is_primary_module_slot(SlotType::DroneBay { group_id: 1 }));
}

#[test]
fn validation_states() {
    assert_eq!(ValidationState::from(ItemState::Online), ValidationState::Online);
    assert_eq!(ValidationState::from(EffectCategory::Active), ValidationState::Active);
    assert_eq!(ValidationState::from(EffectCategory::Target), ValidationState::Overload);
    assert_eq!(ValidationState::from(EffectCategory::System), ValidationState::Overload);
}

fn fitted(slot_type: ItemSlotType, index: i32, state: ItemState) -> ItemModule {
    ItemModule {
        item_id: ItemID::Item(2048),
        slot: ItemSlot { slot_type, index },
        state,
        charge: None,
        damage_turns: 0,
    }
}

#[test]
fn module_state_above_max_is_reported() {
    let modules = vec![
        fitted(ItemSlotType::Low, 0, ItemState::Active),
        fitted(ItemSlotType::Low, 1, ItemState::Online),
        fitted(ItemSlotType::High, 0, ItemState::Overload),
    ];
    // The calculated items: the fitted modules first, then a drone.
    let max_states = vec![
        EffectCategory::Online,
        EffectCategory::Online,
        EffectCategory::Overload,
        EffectCategory::Passive,
    ];
    let mut issues = vec![];
    validate_module_states(&modules, &max_states, &mut issues);
    assert_eq!(
        issues,
        vec![error(
            ValidationSlotType::Low,
            Some(0),
            ValidationErrorKey::StateExceedsMax {
                state: ValidationState::Active,
                max_state: ValidationState::Online,
            },
        )]
    );
    // Pairs stop at the shorter list.
    let mut issues = vec![];
    validate_module_states(&modules, &vec![EffectCategory::Passive], &mut issues);
    assert_eq!(issues.len(), 1);
    let mut issues = vec![];
    validate_module_states(&modules[1..].to_vec(), &vec![], &mut issues);
    assert!(issues.is_empty());
}

#[test]
fn rig_sizes() {
    let rigs = vec![
        RigSizeCheck { index: 0, rig_size: Some(1) },
        RigSizeCheck { index: 1, rig_size: Some(2) },
        RigSizeCheck { index: 2, rig_size: None },
    ];
    let mut issues = vec![];
    validate_rig_sizes(Some(1), &rigs, &mut issues);
    assert_eq!(
        issues,
        vec![error(
            ValidationSlotType::Rig,
            Some(1),
            ValidationErrorKey::IncompatibleRigSize { expected: 1, actual: 2 },
        )]
    );
    let mut issues = vec![];
    validate_rig_sizes(None, &rigs, &mut issues);
    assert!(issues.is_empty());
}

#[test]
fn duplicate_boosters() {
    let boosters = vec![
        BoosterSlotCheck { index: 0, slot: Some(1) },
        BoosterSlotCheck { index: 1, slot: Some(2) },
        BoosterSlotCheck { index: 2, slot: Some(1) },
        BoosterSlotCheck { index: 3, slot: None },
        BoosterSlotCheck { index: 4, slot: None },
    ];
    let mut issues = vec![];
    validate_booster_slots(&boosters, &mut issues);
    assert_eq!(
        issues,
        vec![
            error(ValidationSlotType::Booster, Some(0), ValidationErrorKey::DuplicateBooster { slot: 1 }),
            error(ValidationSlotType::Booster, Some(2), ValidationErrorKey::DuplicateBooster { slot: 1 }),
        ]
    );
}

#[test]
fn fighter_tubes_exceeded() {
    // A carrier with 5 tubes and 3 light squadron slots, launching six
    // light fighters.
    let capacity = FighterCapacity { tubes: 5, light_slots: 3, support_slots: 0, heavy_slots: 4 };
    let groups = vec![1652; 6];
    let mut issues = vec![];
    validate_fighter_capacity(&groups, capacity, &mut issues);
    assert_eq!(
        issues,
        vec![
            error(
                ValidationSlotType::Fighter,
                None,
                ValidationErrorKey::TooMuchFighterTube { expected: 5, actual: 6 },
            ),
            error(
                ValidationSlotType::Fighter,
                None,
                ValidationErrorKey::TooMuchFighterSquadron {
                    category: FighterSquadron::Light,
                    expected: 3,
                    actual: 6,
                },
            ),
        ]
    );
}

#[test]
fn fighters_within_capacity() {
    let capacity = FighterCapacity { tubes: 5, light_slots: 3, support_slots: 0, heavy_slots: 4 };
    let mut issues = vec![];
    validate_fighter_capacity(&vec![1652, 4777, 1653, 4779], capacity, &mut issues);
    assert!(issues.is_empty());
    validate_fighter_capacity(&vec![], FighterCapacity { tubes: 0, light_slots: 0, support_slots: 0, heavy_slots: 0 }, &mut issues);
    assert!(issues.is_empty());
    validate_fighter_capacity(&vec![4778], capacity, &mut issues);
    assert_eq!(
        issues,
        vec![error(
            ValidationSlotType::Fighter,
            None,
            ValidationErrorKey::TooMuchFighterSquadron {
                category: FighterSquadron::Support,
                expected: 0,
                actual: 1,
            },
        )]
    );
}

fn hardpoint_module(slot_type: ItemSlotType, effects: &[i32], turrets: u8, launchers: u8) -> HardpointCheck {
    HardpointCheck {
        slot_type,
        effects: effects
            .iter()
            .map(|&effect_id| TypeDogmaEffect { effect_id, is_default: false })
            .collect(),
        turret_hardpoints: turrets,
        launcher_hardpoints: launchers,
    }
}

#[test]
fn hardpoints() {
    let modules = vec![
        hardpoint_module(ItemSlotType::High, &[12, 42], 0, 0),
        hardpoint_module(ItemSlotType::High, &[42, 40], 0, 0),
        hardpoint_module(ItemSlotType::High, &[40], 0, 0),
        hardpoint_module(ItemSlotType::High, &[40], 0, 0),
        hardpoint_module(ItemSlotType::Medium, &[42], 0, 0),
        hardpoint_module(ItemSlotType::SubSystem, &[], 1, 0),
    ];
    let mut issues = vec![];
    validate_slot_counts(&modules, 0, 3, &mut issues);
    assert_eq!(
        issues,
        vec![error(
            ValidationSlotType::High,
            None,
            ValidationErrorKey::TooMuchTurret { expected: 1, actual: 2 },
        )]
    );
    let mut issues = vec![];
    validate_slot_counts(&modules, 2, 1, &mut issues);
    assert_eq!(
        issues,
        vec![error(
            ValidationSlotType::High,
            None,
            ValidationErrorKey::TooMuchLauncher { expected: 1, actual: 2 },
        )]
    );
}

fn attrs(pairs: &[(i32, i32)]) -> Vec<IdAttribute> {
    pairs
        .iter()
        .map(|&(attribute_id, value)| IdAttribute { attribute_id, value })
        .collect()
}

#[test]
fn fit_targets() {
    let modules = vec![
        // Restricted to group 941 or type 28606; fitted on a ship of group 419.
        FitTargetCheck {
            slot_type: ItemSlotType::High,
            index: 2,
            attributes: attrs(&[(1298, 941), (1299, 0), (1302, 28606), (50, 3)]),
        },
        // Unrestricted.
        FitTargetCheck { slot_type: ItemSlotType::Low, index: 0, attributes: attrs(&[(50, 3)]) },
        // Restricted to the ship's group.
        FitTargetCheck {
            slot_type: ItemSlotType::Rig,
            index: 0,
            attributes: attrs(&[(1298, 941), (1299, 419)]),
        },
        // Restricted to the ship's type.
        FitTargetCheck { slot_type: ItemSlotType::Rig, index: 1, attributes: attrs(&[(2758, 628)]) },
        // Restricted to groups only.
        FitTargetCheck { slot_type: ItemSlotType::Medium, index: 3, attributes: attrs(&[(2485, 30)]) },
    ];
    let mut issues = vec![];
    validate_fit_targets(&modules, 419, 628, &mut issues);
    assert_eq!(
        issues,
        vec![
            error(
                ValidationSlotType::High,
                Some(2),
                ValidationErrorKey::IncompatibleShipGroup { expected: vec![941] },
            ),
            error(
                ValidationSlotType::High,
                Some(2),
                ValidationErrorKey::IncompatibleShipType { expected: vec![28606] },
            ),
            error(
                ValidationSlotType::Medium,
                Some(3),
                ValidationErrorKey::IncompatibleShipGroup { expected: vec![30] },
            ),
        ]
    );
}

fn charge_check(charge: Option<LoadedCharge>) -> ChargeCheck {
    ChargeCheck {
        slot_type: ValidationSlotType::High,
        index: Some(1),
        charge_size: Some(1),
        charge_group_values: vec![0, 384, 0, 772],
        has_ammo_capacity: true,
        charge_rate_positive: true,
        charge,
    }
}

#[test]
fn charges() {
    let mut issues = vec![];
    validate_charge(&charge_check(Some(LoadedCharge { size: Some(1), group_id: Some(384) })), &mut issues);
    assert!(issues.is_empty());

    validate_charge(&charge_check(Some(LoadedCharge { size: Some(2), group_id: Some(83) })), &mut issues);
    assert_eq!(
        issues,
        vec![
            error(
                ValidationSlotType::High,
                Some(1),
                ValidationErrorKey::IncompatibleChargeSize { expected: 1, actual: 2 },
            ),
            error(
                ValidationSlotType::High,
                Some(1),
                ValidationErrorKey::IncompatibleChargeGroup { expected: vec![384, 772], actual: 83 },
            ),
        ]
    );

    let mut issues = vec![];
    validate_charge(&charge_check(None), &mut issues);
    assert_eq!(
        issues,
        vec![ValidationIssue {
            slot_type: ValidationSlotType::High,
            index: Some(1),
            kind: ValidationIssueKind::Warning(ValidationWarningKey::MissingCharge),
        }]
    );

    // A module that does not consume charges needs none.
    let mut check = charge_check(None);
    check.charge_rate_positive = false;
    let mut issues = vec![];
    validate_charge(&check, &mut issues);
    assert!(issues.is_empty());
}

fn active(index: i32, max_active: Option<usize>, group_id: i32) -> GroupLimitItem {
    GroupLimitItem {
        slot_type: SlotType::Medium,
        index: Some(index),
        state: EffectCategory::Active,
        max_active,
        group_id: Some(group_id),
    }
}

#[test]
fn max_active_groups() {
    let mut inactive = active(6, Some(1), 1770);
    inactive.state = EffectCategory::Online;
    let mut rig = active(7, Some(1), 1770);
    rig.slot_type = SlotType::Rig;
    let modules = vec![
        active(0, Some(1), 1770),
        active(1, Some(2), 1770),
        active(2, Some(0), 1770),
        active(3, None, 1770),
        active(4, Some(2), 41),
        active(5, Some(2), 41),
        inactive,
        rig,
    ];
    let mut issues = vec![];
    validate_max_active_groups(&modules, &mut issues);
    assert_eq!(
        issues,
        vec![
            error(ValidationSlotType::Medium, Some(0), ValidationErrorKey::ConflictItem { group_id: 1770 }),
            error(ValidationSlotType::Medium, Some(1), ValidationErrorKey::ConflictItem { group_id: 1770 }),
        ]
    );
    // Only active items in high, medium and low slots count.
    let mut issues = vec![];
    validate_max_active_groups(&vec![active(0, Some(1), 1770), inactive, rig], &mut issues);
    assert!(issues.is_empty());
}

#[test]
fn charge_checked_positions() {
    let slot_types = vec![
        SlotType::High,
        SlotType::Rig,
        SlotType::Low,
        SlotType::DroneBay { group_id: 1 },
        SlotType::Medium,
    ];
    assert_eq!(
        charge_checked_items(&slot_types),
        vec![(0, ValidationSlotType::High), (2, ValidationSlotType::Low), (4, ValidationSlotType::Medium)]
    );
}

fn core_item(index: i32, type_id: i32, state: EffectCategory) -> IndustrialCoreCheck {
    IndustrialCoreCheck { slot_type: SlotType::High, index: Some(index), type_id, state }
}

#[test]
fn industrial_core_required_for_panic_and_compressor() {
    const PANIC: i32 = 42522;
    const CORE: i32 = 42890;
    const COMPRESSOR: i32 = 62632;
    let requires_core = |items: Vec<IndustrialCoreCheck>| {
        let mut issues = vec![];
        validate_industrial_core(&items, &mut issues);
        issues.iter().any(|issue| {
            matches!(
                issue.kind,
                ValidationIssueKind::Error(ValidationErrorKey::RequiresActiveIndustrialCore)
            )
        })
    };
    assert!(requires_core(vec![core_item(0, PANIC, EffectCategory::Active)]));
    assert!(!requires_core(vec![core_item(0, PANIC, EffectCategory::Online)]));
    assert!(!requires_core(vec![
        core_item(0, PANIC, EffectCategory::Active),
        core_item(1, CORE, EffectCategory::Active),
    ]));
    assert!(requires_core(vec![core_item(0, COMPRESSOR, EffectCategory::Active)]));
    assert!(requires_core(vec![
        core_item(0, COMPRESSOR, EffectCategory::Active),
        core_item(1, CORE, EffectCategory::Online),
    ]));
    assert!(!requires_core(vec![
        core_item(0, COMPRESSOR, EffectCategory::Active),
        core_item(1, CORE, EffectCategory::Active),
    ]));

    let mut issues = vec![];
    validate_industrial_core(
        &vec![core_item(3, PANIC, EffectCategory::Overload), core_item(4, 2048, EffectCategory::Active)],
        &mut issues,
    );
    assert_eq!(
        issues,
        vec![error(ValidationSlotType::High, Some(3), ValidationErrorKey::RequiresActiveIndustrialCore)]
    );
}

#[test]
fn legal_fit_has_no_issues() {
    let mut issues = vec![];
    let modules = vec![
        hardpoint_module(ItemSlotType::High, &[42], 0, 0),
        hardpoint_module(ItemSlotType::High, &[40], 0, 0),
        hardpoint_module(ItemSlotType::Low, &[], 0, 0),
    ];
    validate_slot_counts(&modules, 2, 2, &mut issues);
    validate_fit_targets(
        &vec![FitTargetCheck { slot_type: ItemSlotType::Low, index: 0, attributes: attrs(&[(1298, 419)]) }],
        419,
        628,
        &mut issues,
    );
    validate_rig_sizes(Some(1), &vec![RigSizeCheck { index: 0, rig_size: Some(1) }], &mut issues);
    validate_booster_slots(
        &vec![
            BoosterSlotCheck { index: 0, slot: Some(1) },
            BoosterSlotCheck { index: 1, slot: Some(2) },
        ],
        &mut issues,
    );
    validate_charge(&charge_check(Some(LoadedCharge { size: Some(1), group_id: Some(772) })), &mut issues);
    validate_max_active_groups(&vec![active(0, Some(1), 1770), active(1, Some(1), 41)], &mut issues);
    validate_fighter_capacity(
        &vec![1652, 1653],
        FighterCapacity { tubes: 2, light_slots: 1, support_slots: 0, heavy_slots: 1 },
        &mut issues,
    );
    validate_module_states(
        &vec![fitted(ItemSlotType::High, 0, ItemState::Active)],
        &vec![EffectCategory::Active],
        &mut issues,
    );
    validate_industrial_core(&vec![core_item(0, 2048, EffectCategory::Active)], &mut issues);
    assert!(issues.is_empty(), "legal fit must not produce errors, got {issues:?}");
}
