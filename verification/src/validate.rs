//! Fit validation rules over identifiers, counts and states.
//!
//! Each rule appends the issues it finds, in the order of the items it
//! inspects. The checks of ship resources (power grid, CPU, calibration,
//! drone bandwidth and bay), whose figures are fractional, are not among
//! these rules; nor is the charge volume check.

use vstd::prelude::*;

use crate::calculate::item::{EffectCategory, SlotType};
use crate::fit::{ItemModule, ItemSlotType, ItemState, TypeDogmaEffect};

verus! {

#[derive(Debug, Clone, Copy, PartialEq, Eq, Structural)]
pub enum ValidationSlotType {
    High,
    Medium,
    Low,
    Rig,
    SubSystem,
    Service,
    TacticalMode,
    Implant,
    Booster,
    Drone,
    Fighter,
    Ship,
}

#[derive(Debug, Clone, Copy, PartialEq, Eq, Structural)]
pub enum FighterSquadron {
    Light,
    Support,
    Heavy,
}

#[derive(Debug, Clone, Copy, PartialEq, Eq, Structural)]
pub enum ValidationState {
    Passive,
    Online,
    Active,
    Overload,
}

impl ValidationState {
    pub open spec fn of_item_state(value: ItemState) -> ValidationState {
        match value {
            ItemState::Passive => ValidationState::Passive,
            ItemState::Online => ValidationState::Online,
            ItemState::Active => ValidationState::Active,
            ItemState::Overload => ValidationState::Overload,
        }
    }

    /// The state a category reports as: categories above `Active` report as
    /// `Overload`.
    pub open spec fn of_category(value: EffectCategory) -> ValidationState {
        match value {
            EffectCategory::Passive => ValidationState::Passive,
            EffectCategory::Online => ValidationState::Online,
            EffectCategory::Active => ValidationState::Active,
            _ => ValidationState::Overload,
        }
    }
}

impl From<ItemState> for ValidationState {
    fn from(value: ItemState) -> (res: Self) {
        match value {
            ItemState::Passive => Self::Passive,
            ItemState::Online => Self::Online,
            ItemState::Active => Self::Active,
            ItemState::Overload => Self::Overload,
        }
    }
}

impl vstd::std_specs::convert::FromSpecImpl<ItemState> for ValidationState {
    open spec fn obeys_from_spec() -> bool {
        true
    }

    open spec fn from_spec(v: ItemState) -> Self {
        ValidationState::of_item_state(v)
    }
}

impl From<EffectCategory> for ValidationState {
    fn from(value: EffectCategory) -> (res: Self) {
        match value {
            EffectCategory::Passive => Self::Passive,
            EffectCategory::Online => Self::Online,
            EffectCategory::Active => Self::Active,
            _ => Self::Overload,
        }
    }
}

impl vstd::std_specs::convert::FromSpecImpl<EffectCategory> for ValidationState {
    open spec fn obeys_from_spec() -> bool {
        true
    }

    open spec fn from_spec(v: EffectCategory) -> Self {
        ValidationState::of_category(v)
    }
}

#[derive(Debug, Clone, PartialEq)]
pub struct ValidationIssue {
    pub slot_type: ValidationSlotType,
    pub index: Option<i32>,
    pub kind: ValidationIssueKind,
}

#[derive(Debug, Clone, PartialEq)]
pub enum ValidationIssueKind {
    Error(ValidationErrorKey),
    Warning(ValidationWarningKey),
}

/// The errors the rules of this module report.
#[derive(Debug, Clone, PartialEq)]
pub enum ValidationErrorKey {
    IncompatibleChargeSize { expected: u8, actual: u8 },
    IncompatibleChargeGroup { expected: Vec<i32>, actual: i32 },
    TooMuchTurret { expected: u8, actual: u8 },
    TooMuchLauncher { expected: u8, actual: u8 },
    ConflictItem { group_id: i32 },
    DuplicateBooster { slot: i32 },
    IncompatibleShipGroup { expected: Vec<i32> },
    IncompatibleShipType { expected: Vec<i32> },
    IncompatibleRigSize { expected: u8, actual: u8 },
    TooMuchFighterTube { expected: u32, actual: u32 },
    TooMuchFighterSquadron { category: FighterSquadron, expected: u32, actual: u32 },
    StateExceedsMax { state: ValidationState, max_state: ValidationState },
    RequiresActiveIndustrialCore,
}

#[derive(Debug, Clone, Copy, PartialEq, Eq, Structural)]
pub enum ValidationWarningKey {
    MissingCharge,
}

/// The mathematical value of an error key: lists are sequences.
pub ghost enum ErrorKeyView {
    IncompatibleChargeSize { expected: u8, actual: u8 },
    IncompatibleChargeGroup { expected: Seq<i32>, actual: i32 },
    TooMuchTurret { expected: u8, actual: u8 },
    TooMuchLauncher { expected: u8, actual: u8 },
    ConflictItem { group_id: i32 },
    DuplicateBooster { slot: i32 },
    IncompatibleShipGroup { expected: Seq<i32> },
    IncompatibleShipType { expected: Seq<i32> },
    IncompatibleRigSize { expected: u8, actual: u8 },
    TooMuchFighterTube { expected: u32, actual: u32 },
    TooMuchFighterSquadron { category: FighterSquadron, expected: u32, actual: u32 },
    StateExceedsMax { state: ValidationState, max_state: ValidationState },
    RequiresActiveIndustrialCore,
}

/// The mathematical value of an issue kind.
pub ghost enum IssueKindView {
    Error(ErrorKeyView),
    Warning(ValidationWarningKey),
}

/// The mathematical value of an issue.
pub ghost struct IssueView {
    pub slot_type: ValidationSlotType,
    pub index: Option<i32>,
    pub kind: IssueKindView,
}

impl View for ValidationErrorKey {
    type V = ErrorKeyView;

    open spec fn view(&self) -> ErrorKeyView {
        match *self {
            ValidationErrorKey::IncompatibleChargeSize { expected, actual } =>
                ErrorKeyView::IncompatibleChargeSize { expected, actual },
            ValidationErrorKey::IncompatibleChargeGroup { expected, actual } =>
                ErrorKeyView::IncompatibleChargeGroup { expected: expected@, actual },
            ValidationErrorKey::TooMuchTurret { expected, actual } => ErrorKeyView::TooMuchTurret {
                expected,
                actual,
            },
            ValidationErrorKey::TooMuchLauncher { expected, actual } =>
                ErrorKeyView::TooMuchLauncher { expected, actual },
            ValidationErrorKey::ConflictItem { group_id } => ErrorKeyView::ConflictItem { group_id },
            ValidationErrorKey::DuplicateBooster { slot } => ErrorKeyView::DuplicateBooster { slot },
            ValidationErrorKey::IncompatibleShipGroup { expected } =>
                ErrorKeyView::IncompatibleShipGroup { expected: expected@ },
            ValidationErrorKey::IncompatibleShipType { expected } =>
                ErrorKeyView::IncompatibleShipType { expected: expected@ },
            ValidationErrorKey::IncompatibleRigSize { expected, actual } =>
                ErrorKeyView::IncompatibleRigSize { expected, actual },
            ValidationErrorKey::TooMuchFighterTube { expected, actual } =>
                ErrorKeyView::TooMuchFighterTube { expected, actual },
            ValidationErrorKey::TooMuchFighterSquadron { category, expected, actual } =>
                ErrorKeyView::TooMuchFighterSquadron { category, expected, actual },
            ValidationErrorKey::StateExceedsMax { state, max_state } =>
                ErrorKeyView::StateExceedsMax { state, max_state },
            ValidationErrorKey::RequiresActiveIndustrialCore =>
                ErrorKeyView::RequiresActiveIndustrialCore,
        }
    }
}

impl View for ValidationIssueKind {
    type V = IssueKindView;

    open spec fn view(&self) -> IssueKindView {
        match *self {
            ValidationIssueKind::Error(key) => IssueKindView::Error(key@),
            ValidationIssueKind::Warning(key) => IssueKindView::Warning(key),
        }
    }
}

impl View for ValidationIssue {
    type V = IssueView;

    open spec fn view(&self) -> IssueView {
        IssueView { slot_type: self.slot_type, index: self.index, kind: self.kind@ }
    }
}

/// The values of a list of issues.
pub open spec fn issue_views(issues: Seq<ValidationIssue>) -> Seq<IssueView> {
    issues.map_values(|issue: ValidationIssue| issue@)
}

proof fn lemma_issue_views_push(issues: Seq<ValidationIssue>, issue: ValidationIssue)
    ensures
        issue_views(issues.push(issue)) == issue_views(issues).push(issue@),
{
    assert(issue_views(issues.push(issue)) =~= issue_views(issues).push(issue@));
}

/// An error issue.
pub open spec fn error_view(slot_type: ValidationSlotType, index: Option<i32>, key: ErrorKeyView) -> IssueView {
    IssueView { slot_type, index, kind: IssueKindView::Error(key) }
}

fn push_issue(issues: &mut Vec<ValidationIssue>, issue: ValidationIssue)
    ensures
        issue_views(final(issues)@) == issue_views(old(issues)@).push(issue@),
{
    proof {
        lemma_issue_views_push(issues@, issue);
    }
    issues.push(issue);
}

pub open spec fn spec_validation_slot_type(slot_type: ItemSlotType) -> ValidationSlotType {
    match slot_type {
        ItemSlotType::High => ValidationSlotType::High,
        ItemSlotType::Medium => ValidationSlotType::Medium,
        ItemSlotType::Low => ValidationSlotType::Low,
        ItemSlotType::Rig => ValidationSlotType::Rig,
        ItemSlotType::SubSystem => ValidationSlotType::SubSystem,
        ItemSlotType::Service => ValidationSlotType::Service,
        ItemSlotType::TacticalMode => ValidationSlotType::TacticalMode,
    }
}

/// The section of the fit a fitted module slot is reported in; every
/// fitted slot has one.
pub fn validation_slot_type(slot_type: ItemSlotType) -> (res: Option<ValidationSlotType>)
    ensures
        res == Some(spec_validation_slot_type(slot_type)),
{
    match slot_type {
        ItemSlotType::High => Some(ValidationSlotType::High),
        ItemSlotType::Medium => Some(ValidationSlotType::Medium),
        ItemSlotType::Low => Some(ValidationSlotType::Low),
        ItemSlotType::Rig => Some(ValidationSlotType::Rig),
        ItemSlotType::SubSystem => Some(ValidationSlotType::SubSystem),
        ItemSlotType::Service => Some(ValidationSlotType::Service),
        ItemSlotType::TacticalMode => Some(ValidationSlotType::TacticalMode),
    }
}

pub open spec fn spec_output_validation_slot_type(slot_type: SlotType) -> Option<ValidationSlotType> {
    match slot_type {
        SlotType::High => Some(ValidationSlotType::High),
        SlotType::Medium => Some(ValidationSlotType::Medium),
        SlotType::Low => Some(ValidationSlotType::Low),
        SlotType::Rig => Some(ValidationSlotType::Rig),
        SlotType::SubSystem => Some(ValidationSlotType::SubSystem),
        SlotType::Service => Some(ValidationSlotType::Service),
        SlotType::TacticalMode => Some(ValidationSlotType::TacticalMode),
        SlotType::DroneBay { .. } => Some(ValidationSlotType::Drone),
        SlotType::Fighter { .. } => Some(ValidationSlotType::Fighter),
        SlotType::Implant => Some(ValidationSlotType::Implant),
        SlotType::Booster => Some(ValidationSlotType::Booster),
        SlotType::Charge | SlotType::Fake => None,
    }
}

/// The section of the fit a calculated item is reported in; charges and
/// internal items are reported in none.
pub fn output_validation_slot_type(slot_type: SlotType) -> (res: Option<ValidationSlotType>)
    ensures
        res == spec_output_validation_slot_type(slot_type),
{
    match slot_type {
        SlotType::High => Some(ValidationSlotType::High),
        SlotType::Medium => Some(ValidationSlotType::Medium),
        SlotType::Low => Some(ValidationSlotType::Low),
        SlotType::Rig => Some(ValidationSlotType::Rig),
        SlotType::SubSystem => Some(ValidationSlotType::SubSystem),
        SlotType::Service => Some(ValidationSlotType::Service),
        SlotType::TacticalMode => Some(ValidationSlotType::TacticalMode),
        SlotType::DroneBay { .. } => Some(ValidationSlotType::Drone),
        SlotType::Fighter { .. } => Some(ValidationSlotType::Fighter),
        SlotType::Implant => Some(ValidationSlotType::Implant),
        SlotType::Booster => Some(ValidationSlotType::Booster),
        SlotType::Charge | SlotType::Fake => None,
    }
}

pub open spec fn spec_is_primary_module_slot(slot_type: SlotType) -> bool {
    slot_type == SlotType::High || slot_type == SlotType::Medium || slot_type == SlotType::Low
}

/// High, medium and low slots: the slots whose modules take charges and
/// count against group activation limits.
pub fn is_primary_module_slot(slot_type: SlotType) -> (res: bool)
    ensures
        res == spec_is_primary_module_slot(slot_type),
{
    match slot_type {
        SlotType::High | SlotType::Medium | SlotType::Low => true,
        _ => false,
    }
}

/// The issue the state check reports for a fitted module whose calculated
/// item supports at most `max_state`, if any: the requested state lies
/// above the highest supported one.
pub open spec fn module_state_issue(m: ItemModule, max_state: EffectCategory) -> Seq<IssueView> {
    if EffectCategory::of_state(m.state).level() > max_state.level() {
        seq![
            error_view(
                spec_validation_slot_type(m.slot.slot_type),
                Some(m.slot.index),
                ErrorKeyView::StateExceedsMax {
                    state: ValidationState::of_item_state(m.state),
                    max_state: ValidationState::of_category(max_state),
                },
            ),
        ]
    } else {
        seq![]
    }
}

/// The state issues of the first `n` pairs of fitted module and highest
/// supported state.
pub open spec fn module_state_issues(
    ms: Seq<ItemModule>,
    max_states: Seq<EffectCategory>,
    n: int,
) -> Seq<IssueView>
    decreases n,
{
    if n <= 0 {
        seq![]
    } else {
        module_state_issues(ms, max_states, n - 1) + module_state_issue(
            ms[n - 1],
            max_states[n - 1],
        )
    }
}

/// The number of pairs the state check looks at: fitted modules are paired
/// with the calculated items in order, as far as both lists go.
pub open spec fn paired_len(ms: Seq<ItemModule>, max_states: Seq<EffectCategory>) -> int {
    if ms.len() <= max_states.len() {
        ms.len() as int
    } else {
        max_states.len() as int
    }
}

/// Reports, in module order, every fitted module whose requested state
/// exceeds the highest state its calculated item supports. The calculated
/// items begin with the fitted modules, in fit order; `max_states` holds
/// their highest supported states, and the two lists are paired in order.
pub fn validate_module_states(
    modules: &Vec<ItemModule>,
    max_states: &Vec<EffectCategory>,
    issues: &mut Vec<ValidationIssue>,
)
    ensures
        issue_views(final(issues)@) == issue_views(old(issues)@) + module_state_issues(
            modules@,
            max_states@,
            paired_len(modules@, max_states@),
        ),
{
    let ghost start = issue_views(issues@);
    let n = if modules.len() <= max_states.len() {
        modules.len()
    } else {
        max_states.len()
    };
    let mut i: usize = 0;
    while i < n
        invariant
            i <= n,
            n == paired_len(modules@, max_states@),
            n <= modules@.len(),
            n <= max_states@.len(),
            issue_views(issues@) == start + module_state_issues(modules@, max_states@, i as int),
        decreases n - i,
    {
        let m = modules[i];
        let max_state = max_states[i];
        let state = EffectCategory::from(m.state);
        if state.rank() > max_state.rank() {
            let slot_type = validation_slot_type(m.slot.slot_type).unwrap();
            push_issue(
                issues,
                ValidationIssue {
                    slot_type,
                    index: Some(m.slot.index),
                    kind: ValidationIssueKind::Error(
                        ValidationErrorKey::StateExceedsMax {
                            state: ValidationState::from(m.state),
                            max_state: ValidationState::from(max_state),
                        },
                    ),
                },
            );
        }
        assert(issue_views(issues@) =~= start + module_state_issues(modules@, max_states@, i + 1));
        i = i + 1;
    }
}

proof fn lemma_module_state_issues_contents(
    ms: Seq<ItemModule>,
    max_states: Seq<EffectCategory>,
    n: int,
    x: IssueView,
)
    requires
        0 <= n <= ms.len(),
        n <= max_states.len(),
    ensures
        module_state_issues(ms, max_states, n).contains(x) <==> exists|i: int|
            0 <= i < n && EffectCategory::of_state(#[trigger] ms[i].state).level()
                > max_states[i].level() && x == error_view(
                spec_validation_slot_type(ms[i].slot.slot_type),
                Some(ms[i].slot.index),
                ErrorKeyView::StateExceedsMax {
                    state: ValidationState::of_item_state(ms[i].state),
                    max_state: ValidationState::of_category(max_states[i]),
                },
            ),
    decreases n,
{
    broadcast use vstd::seq_lib::lemma_seq_concat_contains_all_elements;
    broadcast use vstd::seq_lib::lemma_seq_contains_after_push;
    broadcast use vstd::seq_lib::lemma_seq_empty_contains_nothing;

    if n > 0 {
        lemma_module_state_issues_contents(ms, max_states, n - 1, x);
    }
}

/// Module states: the state check reports a paired module exactly when its
/// requested state lies above the highest state its calculated item
/// supports, with its slot, its index, its state and that maximum; a fit
/// whose modules all stay within their maximum has no state issue.
pub proof fn lemma_module_state_issues_exact(
    ms: Seq<ItemModule>,
    max_states: Seq<EffectCategory>,
    x: IssueView,
)
    ensures
        module_state_issues(ms, max_states, paired_len(ms, max_states)).contains(x) <==> exists|
            i: int,
        |
            0 <= i < paired_len(ms, max_states) && EffectCategory::of_state(
                #[trigger] ms[i].state,
            ).level() > max_states[i].level() && x == error_view(
                spec_validation_slot_type(ms[i].slot.slot_type),
                Some(ms[i].slot.index),
                ErrorKeyView::StateExceedsMax {
                    state: ValidationState::of_item_state(ms[i].state),
                    max_state: ValidationState::of_category(max_states[i]),
                },
            ),
        module_state_issues(ms, max_states, paired_len(ms, max_states)).len() == 0 <==> forall|
            i: int,
        |
            0 <= i < paired_len(ms, max_states) ==> EffectCategory::of_state(
                #[trigger] ms[i].state,
            ).level() <= max_states[i].level(),
{
    let n = paired_len(ms, max_states);
    let s = module_state_issues(ms, max_states, n);
    lemma_module_state_issues_contents(ms, max_states, n, x);
    if s.len() != 0 {
        lemma_module_state_issues_contents(ms, max_states, n, s[0]);
        assert(s.contains(s[0]));
    }
    assert forall|i: int|
        0 <= i < n && EffectCategory::of_state(#[trigger] ms[i].state).level()
            > max_states[i].level() implies s.len() != 0 by {
        let e = error_view(
            spec_validation_slot_type(ms[i].slot.slot_type),
            Some(ms[i].slot.index),
            ErrorKeyView::StateExceedsMax {
                state: ValidationState::of_item_state(ms[i].state),
                max_state: ValidationState::of_category(max_states[i]),
            },
        );
        lemma_module_state_issues_contents(ms, max_states, n, e);
    }
}

/// A fitted rig, as the rig size check sees it.
#[derive(Debug, Clone, Copy, PartialEq, Eq, Structural)]
pub struct RigSizeCheck {
    pub index: i32,
    /// The rig's size attribute, if it has one.
    pub rig_size: Option<u8>,
}

pub open spec fn rig_size_issue(ship_rig_size: Option<u8>, r: RigSizeCheck) -> Seq<IssueView> {
    match (ship_rig_size, r.rig_size) {
        (Some(expected), Some(actual)) => if expected != actual {
            seq![
                error_view(
                    ValidationSlotType::Rig,
                    Some(r.index),
                    ErrorKeyView::IncompatibleRigSize { expected, actual },
                ),
            ]
        } else {
            seq![]
        },
        _ => seq![],
    }
}

pub open spec fn rig_size_issues(ship_rig_size: Option<u8>, rigs: Seq<RigSizeCheck>, n: int) -> Seq<
    IssueView,
>
    decreases n,
{
    if n <= 0 {
        seq![]
    } else {
        rig_size_issues(ship_rig_size, rigs, n - 1) + rig_size_issue(ship_rig_size, rigs[n - 1])
    }
}

/// Reports, in order, every rig whose size differs from the ship's rig
/// size, when both are known.
pub fn validate_rig_sizes(
    ship_rig_size: Option<u8>,
    rigs: &Vec<RigSizeCheck>,
    issues: &mut Vec<ValidationIssue>,
)
    ensures
        issue_views(final(issues)@) == issue_views(old(issues)@) + rig_size_issues(
            ship_rig_size,
            rigs@,
            rigs@.len() as int,
        ),
{
    let ghost start = issue_views(issues@);
    let mut i: usize = 0;
    while i < rigs.len()
        invariant
            i <= rigs@.len(),
            issue_views(issues@) == start + rig_size_issues(ship_rig_size, rigs@, i as int),
        decreases rigs@.len() - i,
    {
        let r = rigs[i];
        match (ship_rig_size, r.rig_size) {
            (Some(expected), Some(actual)) => {
                if expected != actual {
                    push_issue(
                        issues,
                        ValidationIssue {
                            slot_type: ValidationSlotType::Rig,
                            index: Some(r.index),
                            kind: ValidationIssueKind::Error(
                                ValidationErrorKey::IncompatibleRigSize { expected, actual },
                            ),
                        },
                    );
                }
            },
            _ => {},
        }
        assert(issue_views(issues@) =~= start + rig_size_issues(ship_rig_size, rigs@, i + 1));
        i = i + 1;
    }
}

proof fn lemma_rig_size_issues_contents(
    ship_rig_size: Option<u8>,
    rigs: Seq<RigSizeCheck>,
    n: int,
    x: IssueView,
)
    requires
        0 <= n <= rigs.len(),
    ensures
        rig_size_issues(ship_rig_size, rigs, n).contains(x) <==> exists|i: int|
            0 <= i < n && ship_rig_size is Some && (#[trigger] rigs[i]).rig_size is Some
                && ship_rig_size->0 != rigs[i].rig_size->0 && x == error_view(
                ValidationSlotType::Rig,
                Some(rigs[i].index),
                ErrorKeyView::IncompatibleRigSize {
                    expected: ship_rig_size->0,
                    actual: rigs[i].rig_size->0,
                },
            ),
    decreases n,
{
    broadcast use vstd::seq_lib::lemma_seq_concat_contains_all_elements;
    broadcast use vstd::seq_lib::lemma_seq_contains_after_push;
    broadcast use vstd::seq_lib::lemma_seq_empty_contains_nothing;

    if n > 0 {
        lemma_rig_size_issues_contents(ship_rig_size, rigs, n - 1, x);
    }
}

/// Rig sizes: a rig is reported, with its index, the ship's rig size and
/// its own, exactly when both sizes are known and differ; when the ship's
/// rig size is unknown nothing is reported.
pub proof fn lemma_rig_size_issues_exact(ship_rig_size: Option<u8>, rigs: Seq<RigSizeCheck>, x: IssueView)
    ensures
        rig_size_issues(ship_rig_size, rigs, rigs.len() as int).contains(x) <==> exists|i: int|
            0 <= i < rigs.len() && ship_rig_size is Some && (#[trigger] rigs[i]).rig_size is Some
                && ship_rig_size->0 != rigs[i].rig_size->0 && x == error_view(
                ValidationSlotType::Rig,
                Some(rigs[i].index),
                ErrorKeyView::IncompatibleRigSize {
                    expected: ship_rig_size->0,
                    actual: rigs[i].rig_size->0,
                },
            ),
        ship_rig_size is None ==> rig_size_issues(ship_rig_size, rigs, rigs.len() as int).len() == 0,
{
    let s = rig_size_issues(ship_rig_size, rigs, rigs.len() as int);
    lemma_rig_size_issues_contents(ship_rig_size, rigs, rigs.len() as int, x);
    if s.len() != 0 {
        lemma_rig_size_issues_contents(ship_rig_size, rigs, rigs.len() as int, s[0]);
        assert(s.contains(s[0]));
    }
}

/// A booster, as the booster slot check sees it.
#[derive(Debug, Clone, Copy, PartialEq, Eq, Structural)]
pub struct BoosterSlotCheck {
    pub index: i32,
    /// The booster slot the booster occupies, if its type names one.
    pub slot: Option<i32>,
}

/// The number of the first `n` boosters that occupy `slot`.
pub open spec fn slot_occupancy(bs: Seq<BoosterSlotCheck>, n: int, slot: i32) -> nat
    decreases n,
{
    if n <= 0 {
        0
    } else {
        slot_occupancy(bs, n - 1, slot) + if bs[n - 1].slot == Some(slot) {
            1nat
        } else {
            0nat
        }
    }
}

pub open spec fn booster_issue(bs: Seq<BoosterSlotCheck>, k: int) -> Seq<IssueView> {
    match bs[k].slot {
        Some(slot) => if slot_occupancy(bs, bs.len() as int, slot) > 1 {
            seq![
                error_view(
                    ValidationSlotType::Booster,
                    Some(bs[k].index),
                    ErrorKeyView::DuplicateBooster { slot },
                ),
            ]
        } else {
            seq![]
        },
        None => seq![],
    }
}

pub open spec fn booster_issues(bs: Seq<BoosterSlotCheck>, n: int) -> Seq<IssueView>
    decreases n,
{
    if n <= 0 {
        seq![]
    } else {
        booster_issues(bs, n - 1) + booster_issue(bs, n - 1)
    }
}

fn count_slot(boosters: &Vec<BoosterSlotCheck>, slot: i32) -> (res: usize)
    ensures
        res == slot_occupancy(boosters@, boosters@.len() as int, slot),
{
    let mut count: usize = 0;
    let mut i: usize = 0;
    while i < boosters.len()
        invariant
            i <= boosters@.len(),
            count == slot_occupancy(boosters@, i as int, slot),
            count <= i,
        decreases boosters@.len() - i,
    {
        match boosters[i].slot {
            Some(s) => {
                if s == slot {
                    count = count + 1;
                }
            },
            None => {},
        }
        i = i + 1;
    }
    count
}

/// Reports, in order, every booster that shares its booster slot with
/// another booster of the fit.
pub fn validate_booster_slots(boosters: &Vec<BoosterSlotCheck>, issues: &mut Vec<ValidationIssue>)
    ensures
        issue_views(final(issues)@) == issue_views(old(issues)@) + booster_issues(
            boosters@,
            boosters@.len() as int,
        ),
{
    let ghost start = issue_views(issues@);
    let mut i: usize = 0;
    while i < boosters.len()
        invariant
            i <= boosters@.len(),
            issue_views(issues@) == start + booster_issues(boosters@, i as int),
        decreases boosters@.len() - i,
    {
        match boosters[i].slot {
            Some(slot) => {
                if count_slot(boosters, slot) > 1 {
                    push_issue(
                        issues,
                        ValidationIssue {
                            slot_type: ValidationSlotType::Booster,
                            index: Some(boosters[i].index),
                            kind: ValidationIssueKind::Error(
                                ValidationErrorKey::DuplicateBooster { slot },
                            ),
                        },
                    );
                }
            },
            None => {},
        }
        assert(issue_views(issues@) =~= start + booster_issues(boosters@, i + 1));
        i = i + 1;
    }
}

proof fn lemma_slot_occupancy_positive(bs: Seq<BoosterSlotCheck>, n: int, slot: i32)
    requires
        0 <= n <= bs.len(),
    ensures
        slot_occupancy(bs, n, slot) > 0 <==> exists|j: int|
            0 <= j < n && (#[trigger] bs[j]).slot == Some(slot),
    decreases n,
{
    if n > 0 {
        lemma_slot_occupancy_positive(bs, n - 1, slot);
    }
}

proof fn lemma_slot_occupancy_shared(bs: Seq<BoosterSlotCheck>, n: int, k: int, slot: i32)
    requires
        0 <= k < n <= bs.len(),
        bs[k].slot == Some(slot),
    ensures
        slot_occupancy(bs, n, slot) > 1 <==> exists|j: int|
            0 <= j < n && j != k && (#[trigger] bs[j]).slot == Some(slot),
    decreases n,
{
    if n - 1 == k {
        lemma_slot_occupancy_positive(bs, n - 1, slot);
    } else {
        lemma_slot_occupancy_shared(bs, n - 1, k, slot);
        lemma_slot_occupancy_positive(bs, n - 1, slot);
        assert(bs[k].slot == Some(slot));
    }
}

proof fn lemma_booster_issues_contents(bs: Seq<BoosterSlotCheck>, n: int, x: IssueView)
    requires
        0 <= n <= bs.len(),
    ensures
        booster_issues(bs, n).contains(x) <==> exists|k: int|
            0 <= k < n && (#[trigger] bs[k]).slot is Some && (exists|j: int|
                0 <= j < bs.len() && j != k && (#[trigger] bs[j]).slot == bs[k].slot) && x
                == error_view(
                ValidationSlotType::Booster,
                Some(bs[k].index),
                ErrorKeyView::DuplicateBooster { slot: bs[k].slot->0 },
            ),
    decreases n,
{
    broadcast use vstd::seq_lib::lemma_seq_concat_contains_all_elements;
    broadcast use vstd::seq_lib::lemma_seq_contains_after_push;
    broadcast use vstd::seq_lib::lemma_seq_empty_contains_nothing;

    if n > 0 {
        lemma_booster_issues_contents(bs, n - 1, x);
        let k = n - 1;
        if bs[k].slot is Some {
            lemma_slot_occupancy_shared(bs, bs.len() as int, k, bs[k].slot->0);
        }
    }
}

/// Booster slots: a booster is reported, with its index and its slot,
/// exactly when another booster of the fit occupies the same slot; a
/// booster alone in its slot, or without a slot, is not reported.
pub proof fn lemma_booster_issues_exact(bs: Seq<BoosterSlotCheck>, x: IssueView)
    ensures
        booster_issues(bs, bs.len() as int).contains(x) <==> exists|k: int|
            0 <= k < bs.len() && (#[trigger] bs[k]).slot is Some && (exists|j: int|
                0 <= j < bs.len() && j != k && (#[trigger] bs[j]).slot == bs[k].slot) && x
                == error_view(
                ValidationSlotType::Booster,
                Some(bs[k].index),
                ErrorKeyView::DuplicateBooster { slot: bs[k].slot->0 },
            ),
{
    lemma_booster_issues_contents(bs, bs.len() as int, x);
}

/// Whether `x` occurs in `ids`.
fn contains_id(ids: &Vec<i32>, x: i32) -> (res: bool)
    ensures
        res == ids@.contains(x),
{
    let mut i: usize = 0;
    while i < ids.len()
        invariant
            i <= ids@.len(),
            forall|j: int| 0 <= j < i ==> ids@[j] != x,
        decreases ids@.len() - i,
    {
        if ids[i] == x {
            assert(ids@[i as int] == x);
            return true;
        }
        i = i + 1;
    }
    false
}

/// Light fighter groups.
pub open spec fn light_fighter_groups() -> Seq<i32> {
    seq![1652i32, 4777i32]
}

/// Support fighter groups.
pub open spec fn support_fighter_groups() -> Seq<i32> {
    seq![1537i32, 4778i32]
}

/// Heavy fighter groups.
pub open spec fn heavy_fighter_groups() -> Seq<i32> {
    seq![1653i32, 4779i32]
}

pub open spec fn squadron_groups(category: FighterSquadron) -> Seq<i32> {
    match category {
        FighterSquadron::Light => light_fighter_groups(),
        FighterSquadron::Support => support_fighter_groups(),
        FighterSquadron::Heavy => heavy_fighter_groups(),
    }
}

fn squadron_group_ids(category: FighterSquadron) -> (res: Vec<i32>)
    ensures
        res@ == squadron_groups(category),
{
    let res = match category {
        FighterSquadron::Light => vec![1652i32, 4777i32],
        FighterSquadron::Support => vec![1537i32, 4778i32],
        FighterSquadron::Heavy => vec![1653i32, 4779i32],
    };
    assert(res@ =~= squadron_groups(category));
    res
}

/// The number of the first `n` fighters whose group belongs to `category`.
pub open spec fn squadron_count(groups: Seq<i32>, n: int, category: FighterSquadron) -> nat
    decreases n,
{
    if n <= 0 {
        0
    } else {
        squadron_count(groups, n - 1, category) + if squadron_groups(category).contains(
            groups[n - 1],
        ) {
            1nat
        } else {
            0nat
        }
    }
}

pub open spec fn squadron_issue(groups: Seq<i32>, category: FighterSquadron, limit: u32) -> Seq<
    IssueView,
> {
    let count = squadron_count(groups, groups.len() as int, category) as u32;
    if count != 0 && count > limit {
        seq![
            error_view(
                ValidationSlotType::Fighter,
                None,
                ErrorKeyView::TooMuchFighterSquadron { category, expected: limit, actual: count },
            ),
        ]
    } else {
        seq![]
    }
}

/// The fighter capacity of a ship: launch tubes and squadron slots.
#[derive(Debug, Clone, Copy, PartialEq, Eq, Structural)]
pub struct FighterCapacity {
    pub tubes: u32,
    pub light_slots: u32,
    pub support_slots: u32,
    pub heavy_slots: u32,
}

pub open spec fn fighter_issues(groups: Seq<i32>, capacity: FighterCapacity) -> Seq<IssueView> {
    if groups.len() == 0 {
        seq![]
    } else {
        let total = groups.len() as u32;
        (if total > capacity.tubes {
            seq![
                error_view(
                    ValidationSlotType::Fighter,
                    None,
                    ErrorKeyView::TooMuchFighterTube { expected: capacity.tubes, actual: total },
                ),
            ]
        } else {
            seq![]
        }) + squadron_issue(groups, FighterSquadron::Light, capacity.light_slots) + squadron_issue(
            groups,
            FighterSquadron::Support,
            capacity.support_slots,
        ) + squadron_issue(groups, FighterSquadron::Heavy, capacity.heavy_slots)
    }
}

fn check_squadron(
    fighter_groups: &Vec<i32>,
    category: FighterSquadron,
    limit: u32,
    issues: &mut Vec<ValidationIssue>,
)
    ensures
        issue_views(final(issues)@) == issue_views(old(issues)@) + squadron_issue(
            fighter_groups@,
            category,
            limit,
        ),
{
    let ids = squadron_group_ids(category);
    let mut count: usize = 0;
    let mut i: usize = 0;
    while i < fighter_groups.len()
        invariant
            i <= fighter_groups@.len(),
            ids@ == squadron_groups(category),
            count == squadron_count(fighter_groups@, i as int, category),
            count <= i,
        decreases fighter_groups@.len() - i,
    {
        if contains_id(&ids, fighter_groups[i]) {
            count = count + 1;
        }
        i = i + 1;
    }
    let count = count as u32;
    if count != 0 && count > limit {
        push_issue(
            issues,
            ValidationIssue {
                slot_type: ValidationSlotType::Fighter,
                index: None,
                kind: ValidationIssueKind::Error(
                    ValidationErrorKey::TooMuchFighterSquadron { category, expected: limit, actual: count },
                ),
            },
        );
        assert(issue_views(issues@) =~= issue_views(old(issues)@) + squadron_issue(
            fighter_groups@,
            category,
            limit,
        ));
    } else {
        assert(issue_views(issues@) =~= issue_views(old(issues)@) + squadron_issue(
            fighter_groups@,
            category,
            limit,
        ));
    }
}

/// Checks the fighters of a fit, given the group of each fighter's type:
/// more fighters than launch tubes, and, per squadron category, more
/// fighters of that category than squadron slots. A fit without fighters
/// has no fighter issues.
pub fn validate_fighter_capacity(
    fighter_groups: &Vec<i32>,
    capacity: FighterCapacity,
    issues: &mut Vec<ValidationIssue>,
)
    ensures
        issue_views(final(issues)@) == issue_views(old(issues)@) + fighter_issues(
            fighter_groups@,
            capacity,
        ),
{
    if fighter_groups.len() == 0 {
        assert(issue_views(issues@) =~= issue_views(old(issues)@) + fighter_issues(
            fighter_groups@,
            capacity,
        ));
        return ;
    }
    let total = fighter_groups.len() as u32;
    if total > capacity.tubes {
        push_issue(
            issues,
            ValidationIssue {
                slot_type: ValidationSlotType::Fighter,
                index: None,
                kind: ValidationIssueKind::Error(
                    ValidationErrorKey::TooMuchFighterTube { expected: capacity.tubes, actual: total },
                ),
            },
        );
    }
    let ghost after_tubes = issue_views(issues@);
    check_squadron(fighter_groups, FighterSquadron::Light, capacity.light_slots, issues);
    check_squadron(fighter_groups, FighterSquadron::Support, capacity.support_slots, issues);
    check_squadron(fighter_groups, FighterSquadron::Heavy, capacity.heavy_slots, issues);
    assert(issue_views(issues@) =~= issue_views(old(issues)@) + fighter_issues(
        fighter_groups@,
        capacity,
    ));
}

proof fn lemma_squadron_count_bounded(groups: Seq<i32>, n: int, category: FighterSquadron)
    requires
        0 <= n <= groups.len(),
    ensures
        squadron_count(groups, n, category) <= n,
    decreases n,
{
    if n > 0 {
        lemma_squadron_count_bounded(groups, n - 1, category);
    }
}

/// The squadron slots a ship has for a category.
pub open spec fn squadron_slots(capacity: FighterCapacity, category: FighterSquadron) -> u32 {
    match category {
        FighterSquadron::Light => capacity.light_slots,
        FighterSquadron::Support => capacity.support_slots,
        FighterSquadron::Heavy => capacity.heavy_slots,
    }
}

/// Fighters: a launch tube error (with the tubes and the number of
/// fighters) is reported exactly when there are more fighters than launch
/// tubes, and a squadron error for a category (with its slots and its
/// count) exactly when more fighters belong to that category than it has
/// squadron slots; nothing else is reported, and a fit without fighters has
/// no fighter issue.
pub proof fn lemma_fighter_issues_exact(
    groups: Seq<i32>,
    capacity: FighterCapacity,
    category: FighterSquadron,
)
    requires
        groups.len() <= u32::MAX,
    ensures
        fighter_issues(groups, capacity).contains(
            error_view(
                ValidationSlotType::Fighter,
                None,
                ErrorKeyView::TooMuchFighterTube {
                    expected: capacity.tubes,
                    actual: groups.len() as u32,
                },
            ),
        ) <==> groups.len() > capacity.tubes,
        fighter_issues(groups, capacity).contains(
            error_view(
                ValidationSlotType::Fighter,
                None,
                ErrorKeyView::TooMuchFighterSquadron {
                    category,
                    expected: squadron_slots(capacity, category),
                    actual: squadron_count(groups, groups.len() as int, category) as u32,
                },
            ),
        ) <==> squadron_count(groups, groups.len() as int, category) > squadron_slots(
            capacity,
            category,
        ),
        forall|x: IssueView|
            #[trigger] fighter_issues(groups, capacity).contains(x) ==> x.slot_type
                == ValidationSlotType::Fighter && x.index is None && x.kind is Error && (
            x.kind->Error_0 is TooMuchFighterTube || x.kind->Error_0 is TooMuchFighterSquadron),
        groups.len() == 0 ==> fighter_issues(groups, capacity).len() == 0,
{
    broadcast use vstd::seq_lib::lemma_seq_concat_contains_all_elements;
    broadcast use vstd::seq_lib::lemma_seq_contains_after_push;
    broadcast use vstd::seq_lib::lemma_seq_empty_contains_nothing;

    let n = groups.len() as int;
    lemma_squadron_count_bounded(groups, n, FighterSquadron::Light);
    lemma_squadron_count_bounded(groups, n, FighterSquadron::Support);
    lemma_squadron_count_bounded(groups, n, FighterSquadron::Heavy);
    if n > 0 && squadron_count(groups, n, category) > squadron_slots(capacity, category) {
        assert(squadron_count(groups, n, category) > 0);
    }
}

/// The effect that makes a module a turret.
pub const EFFECT_TURRET: i32 = 42;

/// The effect that makes a module a launcher.
pub const EFFECT_LAUNCHER: i32 = 40;

/// Whether one of `effects` has ID `effect_id`.
pub open spec fn spec_has_effect(effects: Seq<TypeDogmaEffect>, effect_id: i32) -> bool {
    exists|i: int| 0 <= i < effects.len() && #[trigger] effects[i].effect_id == effect_id
}

/// Whether one of `effects` has ID `effect_id`.
pub fn has_effect(effects: &Vec<TypeDogmaEffect>, effect_id: i32) -> (res: bool)
    ensures
        res == spec_has_effect(effects@, effect_id),
{
    let mut i: usize = 0;
    while i < effects.len()
        invariant
            i <= effects@.len(),
            forall|j: int| 0 <= j < i ==> effects@[j].effect_id != effect_id,
        decreases effects@.len() - i,
    {
        if effects[i].effect_id == effect_id {
            assert(effects@[i as int].effect_id == effect_id);
            return true;
        }
        i = i + 1;
    }
    false
}

/// A fitted module, as the hardpoint check sees it.
#[derive(Debug, Clone)]
pub struct HardpointCheck {
    pub slot_type: ItemSlotType,
    /// The dogma effects of the module's type.
    pub effects: Vec<TypeDogmaEffect>,
    /// The turret hardpoints the module adds (a subsystem's bonus; 0 if
    /// the type has none).
    pub turret_hardpoints: u8,
    /// The launcher hardpoints the module adds (a subsystem's bonus; 0 if
    /// the type has none).
    pub launcher_hardpoints: u8,
}

/// A high-slot module is a turret if it has the turret effect, otherwise a
/// launcher if it has the launcher effect.
pub open spec fn is_turret(m: HardpointCheck) -> bool {
    m.slot_type == ItemSlotType::High && spec_has_effect(m.effects@, EFFECT_TURRET)
}

pub open spec fn is_launcher(m: HardpointCheck) -> bool {
    m.slot_type == ItemSlotType::High && !spec_has_effect(m.effects@, EFFECT_TURRET)
        && spec_has_effect(m.effects@, EFFECT_LAUNCHER)
}

/// The number of turrets among the first `n` modules.
pub open spec fn turret_count(ms: Seq<HardpointCheck>, n: int) -> nat
    decreases n,
{
    if n <= 0 {
        0
    } else {
        turret_count(ms, n - 1) + if is_turret(ms[n - 1]) {
            1nat
        } else {
            0nat
        }
    }
}

/// The number of launchers among the first `n` modules.
pub open spec fn launcher_count(ms: Seq<HardpointCheck>, n: int) -> nat
    decreases n,
{
    if n <= 0 {
        0
    } else {
        launcher_count(ms, n - 1) + if is_launcher(ms[n - 1]) {
            1nat
        } else {
            0nat
        }
    }
}

/// The turret hardpoints the subsystems among the first `n` modules add.
pub open spec fn added_turret_hardpoints(ms: Seq<HardpointCheck>, n: int) -> nat
    decreases n,
{
    if n <= 0 {
        0
    } else {
        added_turret_hardpoints(ms, n - 1) + if ms[n - 1].slot_type == ItemSlotType::SubSystem {
            ms[n - 1].turret_hardpoints as nat
        } else {
            0nat
        }
    }
}

/// The launcher hardpoints the subsystems among the first `n` modules add.
pub open spec fn added_launcher_hardpoints(ms: Seq<HardpointCheck>, n: int) -> nat
    decreases n,
{
    if n <= 0 {
        0
    } else {
        added_launcher_hardpoints(ms, n - 1) + if ms[n - 1].slot_type
            == ItemSlotType::SubSystem {
            ms[n - 1].launcher_hardpoints as nat
        } else {
            0nat
        }
    }
}

/// Whether the hardpoint counts of a fit fit in a byte, as they are kept.
pub open spec fn hardpoint_counts_fit(
    ms: Seq<HardpointCheck>,
    ship_turrets: u8,
    ship_launchers: u8,
) -> bool {
    let n = ms.len() as int;
    &&& turret_count(ms, n) <= u8::MAX
    &&& launcher_count(ms, n) <= u8::MAX
    &&& ship_turrets + added_turret_hardpoints(ms, n) <= u8::MAX
    &&& ship_launchers + added_launcher_hardpoints(ms, n) <= u8::MAX
}

pub open spec fn hardpoint_issues(
    ms: Seq<HardpointCheck>,
    ship_turrets: u8,
    ship_launchers: u8,
) -> Seq<IssueView> {
    let n = ms.len() as int;
    let turrets = (ship_turrets + added_turret_hardpoints(ms, n)) as u8;
    let launchers = (ship_launchers + added_launcher_hardpoints(ms, n)) as u8;
    let actual_turrets = turret_count(ms, n) as u8;
    let actual_launchers = launcher_count(ms, n) as u8;
    (if actual_turrets > turrets {
        seq![
            error_view(
                ValidationSlotType::High,
                None,
                ErrorKeyView::TooMuchTurret { expected: turrets, actual: actual_turrets },
            ),
        ]
    } else {
        seq![]
    }) + if actual_launchers > launchers {
        seq![
            error_view(
                ValidationSlotType::High,
                None,
                ErrorKeyView::TooMuchLauncher { expected: launchers, actual: actual_launchers },
            ),
        ]
    } else {
        seq![]
    }
}

/// Checks turret and launcher hardpoints: the turrets and launchers fitted
/// in high slots against the ship's hardpoints plus those its subsystems
/// add. The counts are kept in a byte and must fit in one.
pub fn validate_slot_counts(
    modules: &Vec<HardpointCheck>,
    ship_turrets: u8,
    ship_launchers: u8,
    issues: &mut Vec<ValidationIssue>,
)
    requires
        hardpoint_counts_fit(modules@, ship_turrets, ship_launchers),
    ensures
        issue_views(final(issues)@) == issue_views(old(issues)@) + hardpoint_issues(
            modules@,
            ship_turrets,
            ship_launchers,
        ),
{
    let ghost ms = modules@;
    let ghost n = ms.len() as int;
    let mut actual_turrets: u8 = 0;
    let mut actual_launchers: u8 = 0;
    let mut turrets: u8 = ship_turrets;
    let mut launchers: u8 = ship_launchers;
    let mut i: usize = 0;
    while i < modules.len()
        invariant
            i <= ms.len(),
            ms == modules@,
            n == ms.len(),
            hardpoint_counts_fit(ms, ship_turrets, ship_launchers),
            actual_turrets == turret_count(ms, i as int),
            actual_launchers == launcher_count(ms, i as int),
            turrets == ship_turrets + added_turret_hardpoints(ms, i as int),
            launchers == ship_launchers + added_launcher_hardpoints(ms, i as int),
        decreases ms.len() - i,
    {
        proof {
            lemma_counts_monotone(ms, i + 1, n);
        }
        let m = &modules[i];
        match m.slot_type {
            ItemSlotType::High => {
                if has_effect(&m.effects, EFFECT_TURRET) {
                    actual_turrets = actual_turrets + 1;
                } else if has_effect(&m.effects, EFFECT_LAUNCHER) {
                    actual_launchers = actual_launchers + 1;
                }
            },
            ItemSlotType::SubSystem => {
                turrets = turrets + m.turret_hardpoints;
                launchers = launchers + m.launcher_hardpoints;
            },
            _ => {},
        }
        i = i + 1;
    }
    if actual_turrets > turrets {
        push_issue(
            issues,
            ValidationIssue {
                slot_type: ValidationSlotType::High,
                index: None,
                kind: ValidationIssueKind::Error(
                    ValidationErrorKey::TooMuchTurret { expected: turrets, actual: actual_turrets },
                ),
            },
        );
    }
    if actual_launchers > launchers {
        push_issue(
            issues,
            ValidationIssue {
                slot_type: ValidationSlotType::High,
                index: None,
                kind: ValidationIssueKind::Error(
                    ValidationErrorKey::TooMuchLauncher {
                        expected: launchers,
                        actual: actual_launchers,
                    },
                ),
            },
        );
    }
    assert(issue_views(issues@) =~= issue_views(old(issues)@) + hardpoint_issues(
        modules@,
        ship_turrets,
        ship_launchers,
    ));
}

/// Turret and launcher hardpoints: under the byte bounds, a `TooMuchTurret`
/// error (with the hardpoints and the turret count) is reported exactly when
/// more turrets are fitted in high slots than the ship's turret hardpoints
/// plus those its subsystems add, and likewise `TooMuchLauncher` for
/// launchers; nothing else is reported, so a fit within its hardpoints has
/// no hardpoint issue.
pub proof fn lemma_hardpoint_issues_exact(
    ms: Seq<HardpointCheck>,
    ship_turrets: u8,
    ship_launchers: u8,
)
    requires
        hardpoint_counts_fit(ms, ship_turrets, ship_launchers),
    ensures
        hardpoint_issues(ms, ship_turrets, ship_launchers).contains(
            error_view(
                ValidationSlotType::High,
                None,
                ErrorKeyView::TooMuchTurret {
                    expected: (ship_turrets + added_turret_hardpoints(ms, ms.len() as int)) as u8,
                    actual: turret_count(ms, ms.len() as int) as u8,
                },
            ),
        ) <==> turret_count(ms, ms.len() as int) > ship_turrets + added_turret_hardpoints(
            ms,
            ms.len() as int,
        ),
        hardpoint_issues(ms, ship_turrets, ship_launchers).contains(
            error_view(
                ValidationSlotType::High,
                None,
                ErrorKeyView::TooMuchLauncher {
                    expected: (ship_launchers + added_launcher_hardpoints(ms, ms.len() as int)) as u8,
                    actual: launcher_count(ms, ms.len() as int) as u8,
                },
            ),
        ) <==> launcher_count(ms, ms.len() as int) > ship_launchers + added_launcher_hardpoints(
            ms,
            ms.len() as int,
        ),
        forall|x: IssueView|
            #[trigger] hardpoint_issues(ms, ship_turrets, ship_launchers).contains(x) ==> (x.kind
                is Error && (x.kind->Error_0 is TooMuchTurret || x.kind->Error_0 is TooMuchLauncher)),
        turret_count(ms, ms.len() as int) <= ship_turrets + added_turret_hardpoints(
            ms,
            ms.len() as int,
        ) && launcher_count(ms, ms.len() as int) <= ship_launchers + added_launcher_hardpoints(
            ms,
            ms.len() as int,
        ) ==> hardpoint_issues(ms, ship_turrets, ship_launchers).len() == 0,
{
    broadcast use vstd::seq_lib::lemma_seq_concat_contains_all_elements;
    broadcast use vstd::seq_lib::lemma_seq_contains_after_push;
    broadcast use vstd::seq_lib::lemma_seq_empty_contains_nothing;

}

proof fn lemma_counts_monotone(ms: Seq<HardpointCheck>, i: int, n: int)
    requires
        0 <= i <= n,
    ensures
        turret_count(ms, i) <= turret_count(ms, n),
        launcher_count(ms, i) <= launcher_count(ms, n),
        added_turret_hardpoints(ms, i) <= added_turret_hardpoints(ms, n),
        added_launcher_hardpoints(ms, i) <= added_launcher_hardpoints(ms, n),
    decreases n - i,
{
    if i < n {
        lemma_counts_monotone(ms, i, n - 1);
    }
}

/// The attributes that name ship groups a module can be fitted to.
pub open spec fn can_fit_group_attribute_ids() -> Seq<i32> {
    seq![
        1298i32, 1299i32, 1300i32, 1301i32, 1872i32, 1879i32, 1880i32, 1881i32, 2065i32, 2396i32,
        2476i32, 2477i32, 2478i32, 2479i32, 2480i32, 2481i32, 2482i32, 2483i32, 2484i32, 2485i32,
    ]
}

/// The attributes that name ship types a module can be fitted to.
pub open spec fn can_fit_type_attribute_ids() -> Seq<i32> {
    seq![
        1302i32, 1303i32, 1304i32, 1305i32, 1944i32, 2103i32, 2463i32, 2486i32, 2487i32, 2488i32,
        2758i32, 5948i32,
    ]
}

fn can_fit_group_ids() -> (res: Vec<i32>)
    ensures
        res@ == can_fit_group_attribute_ids(),
{
    let res = vec![
        1298i32, 1299i32, 1300i32, 1301i32, 1872i32, 1879i32, 1880i32, 1881i32, 2065i32, 2396i32,
        2476i32, 2477i32, 2478i32, 2479i32, 2480i32, 2481i32, 2482i32, 2483i32, 2484i32, 2485i32,
    ];
    assert(res@ =~= can_fit_group_attribute_ids());
    res
}

fn can_fit_type_ids() -> (res: Vec<i32>)
    ensures
        res@ == can_fit_type_attribute_ids(),
{
    let res = vec![
        1302i32, 1303i32, 1304i32, 1305i32, 1944i32, 2103i32, 2463i32, 2486i32, 2487i32, 2488i32,
        2758i32, 5948i32,
    ];
    assert(res@ =~= can_fit_type_attribute_ids());
    res
}

/// An attribute of a type, with its value converted to an integer ID.
#[derive(Debug, Clone, Copy, PartialEq, Eq, Structural)]
pub struct IdAttribute {
    pub attribute_id: i32,
    pub value: i32,
}

/// The non-zero values, in order, of those of the first `n` attributes
/// whose ID is in `ids`.
pub open spec fn listed_values(attrs: Seq<IdAttribute>, n: int, ids: Seq<i32>) -> Seq<i32>
    decreases n,
{
    if n <= 0 {
        seq![]
    } else {
        listed_values(attrs, n - 1, ids) + if ids.contains(attrs[n - 1].attribute_id)
            && attrs[n - 1].value != 0 {
            seq![attrs[n - 1].value]
        } else {
            seq![]
        }
    }
}

fn collect_listed_values(attrs: &Vec<IdAttribute>, ids: &Vec<i32>) -> (res: Vec<i32>)
    ensures
        res@ == listed_values(attrs@, attrs@.len() as int, ids@),
{
    let mut res: Vec<i32> = Vec::new();
    let mut i: usize = 0;
    while i < attrs.len()
        invariant
            i <= attrs@.len(),
            res@ == listed_values(attrs@, i as int, ids@),
        decreases attrs@.len() - i,
    {
        let a = attrs[i];
        if contains_id(ids, a.attribute_id) && a.value != 0 {
            res.push(a.value);
        }
        assert(res@ =~= listed_values(attrs@, i + 1, ids@));
        i = i + 1;
    }
    res
}

/// A fitted module, as the fitting restriction check sees it.
#[derive(Debug, Clone)]
pub struct FitTargetCheck {
    pub slot_type: ItemSlotType,
    pub index: i32,
    /// The attributes of the module's type, each value converted to an
    /// integer.
    pub attributes: Vec<IdAttribute>,
}

pub open spec fn fit_target_issue(m: FitTargetCheck, ship_group_id: i32, ship_type_id: i32) -> Seq<
    IssueView,
> {
    let n = m.attributes@.len() as int;
    let groups = listed_values(m.attributes@, n, can_fit_group_attribute_ids());
    let types = listed_values(m.attributes@, n, can_fit_type_attribute_ids());
    let slot_type = spec_validation_slot_type(m.slot_type);
    if groups.contains(ship_group_id) || types.contains(ship_type_id) || (groups.len() == 0
        && types.len() == 0) {
        seq![]
    } else {
        (if groups.len() != 0 {
            seq![
                error_view(
                    slot_type,
                    Some(m.index),
                    ErrorKeyView::IncompatibleShipGroup { expected: groups },
                ),
            ]
        } else {
            seq![]
        }) + if types.len() != 0 {
            seq![
                error_view(
                    slot_type,
                    Some(m.index),
                    ErrorKeyView::IncompatibleShipType { expected: types },
                ),
            ]
        } else {
            seq![]
        }
    }
}

pub open spec fn fit_target_issues(
    ms: Seq<FitTargetCheck>,
    n: int,
    ship_group_id: i32,
    ship_type_id: i32,
) -> Seq<IssueView>
    decreases n,
{
    if n <= 0 {
        seq![]
    } else {
        fit_target_issues(ms, n - 1, ship_group_id, ship_type_id) + fit_target_issue(
            ms[n - 1],
            ship_group_id,
            ship_type_id,
        )
    }
}

/// Whether one of the attributes whose ID is in `ids` has the non-zero
/// value `x`: the module names `x` as a ship group (or type) it can be
/// fitted to.
pub open spec fn names_fit_target(attrs: Seq<IdAttribute>, ids: Seq<i32>, x: i32) -> bool {
    exists|j: int|
        0 <= j < attrs.len() && ids.contains(#[trigger] attrs[j].attribute_id) && attrs[j].value
            != 0 && attrs[j].value == x
}

/// Whether one of the attributes whose ID is in `ids` has a non-zero value:
/// the module restricts the ship groups (or types) it can be fitted to.
pub open spec fn names_any_fit_target(attrs: Seq<IdAttribute>, ids: Seq<i32>) -> bool {
    exists|j: int|
        0 <= j < attrs.len() && ids.contains(#[trigger] attrs[j].attribute_id) && attrs[j].value
            != 0
}

/// Whether a module may be fitted to a ship of the given group and type:
/// it names the ship's group or type, or restricts neither.
pub open spec fn fits_ship(m: FitTargetCheck, ship_group_id: i32, ship_type_id: i32) -> bool {
    let attrs = m.attributes@;
    names_fit_target(attrs, can_fit_group_attribute_ids(), ship_group_id) || names_fit_target(
        attrs,
        can_fit_type_attribute_ids(),
        ship_type_id,
    ) || (!names_any_fit_target(attrs, can_fit_group_attribute_ids()) && !names_any_fit_target(
        attrs,
        can_fit_type_attribute_ids(),
    ))
}

proof fn lemma_listed_values_contents(attrs: Seq<IdAttribute>, n: int, ids: Seq<i32>, x: i32)
    requires
        0 <= n <= attrs.len(),
    ensures
        listed_values(attrs, n, ids).contains(x) <==> names_fit_target(attrs.take(n), ids, x),
        listed_values(attrs, n, ids).len() == 0 <==> !names_any_fit_target(attrs.take(n), ids),
    decreases n,
{
    broadcast use vstd::seq_lib::lemma_seq_concat_contains_all_elements;
    broadcast use vstd::seq_lib::lemma_seq_contains_after_push;
    broadcast use vstd::seq_lib::lemma_seq_empty_contains_nothing;

    if n > 0 {
        lemma_listed_values_contents(attrs, n - 1, ids, x);
        let p = attrs.take(n - 1);
        let q = attrs.take(n);
        assert forall|j: int| 0 <= j < n - 1 implies q[j] == p[j] by {}
        assert(q[n - 1] == attrs[n - 1]);
        if names_fit_target(q, ids, x) {
            let j = choose|j: int|
                0 <= j < q.len() && ids.contains(#[trigger] q[j].attribute_id) && q[j].value != 0
                    && q[j].value == x;
            if j < n - 1 {
                assert(ids.contains(p[j].attribute_id));
            }
        }
        if names_fit_target(p, ids, x) {
            let j = choose|j: int|
                0 <= j < p.len() && ids.contains(#[trigger] p[j].attribute_id) && p[j].value != 0
                    && p[j].value == x;
            assert(ids.contains(q[j].attribute_id));
        }
        if names_any_fit_target(q, ids) {
            let j = choose|j: int|
                0 <= j < q.len() && ids.contains(#[trigger] q[j].attribute_id) && q[j].value != 0;
            if j < n - 1 {
                assert(ids.contains(p[j].attribute_id));
            }
        }
        if names_any_fit_target(p, ids) {
            let j = choose|j: int|
                0 <= j < p.len() && ids.contains(#[trigger] p[j].attribute_id) && p[j].value != 0;
            assert(ids.contains(q[j].attribute_id));
        }
    }
}

/// Fitting restrictions: a module is reported exactly when it cannot be
/// fitted to the ship, that is when it names ship groups or ship types,
/// and neither the ship's group nor its type among them; every issue
/// reported for it carries the module's slot and index.
pub proof fn lemma_fit_target_issue_exact(m: FitTargetCheck, ship_group_id: i32, ship_type_id: i32)
    ensures
        fit_target_issue(m, ship_group_id, ship_type_id).len() == 0 <==> fits_ship(
            m,
            ship_group_id,
            ship_type_id,
        ),
        forall|j: int|
            0 <= j < fit_target_issue(m, ship_group_id, ship_type_id).len() ==> (#[trigger] fit_target_issue(
                m,
                ship_group_id,
                ship_type_id,
            )[j]).slot_type == spec_validation_slot_type(m.slot_type) && fit_target_issue(
                m,
                ship_group_id,
                ship_type_id,
            )[j].index == Some(m.index),
{
    let attrs = m.attributes@;
    let n = attrs.len() as int;
    assert(attrs.take(n) =~= attrs);
    lemma_listed_values_contents(attrs, n, can_fit_group_attribute_ids(), ship_group_id);
    lemma_listed_values_contents(attrs, n, can_fit_type_attribute_ids(), ship_type_id);
}

/// A fit has no fitting-restriction issue exactly when every module can be
/// fitted to the ship.
pub proof fn lemma_fit_target_issues_empty(
    ms: Seq<FitTargetCheck>,
    ship_group_id: i32,
    ship_type_id: i32,
)
    ensures
        fit_target_issues(ms, ms.len() as int, ship_group_id, ship_type_id).len() == 0 <==> forall|
            i: int,
        |
            0 <= i < ms.len() ==> fits_ship(#[trigger] ms[i], ship_group_id, ship_type_id),
{
    lemma_fit_target_issues_empty_upto(ms, ms.len() as int, ship_group_id, ship_type_id);
}

proof fn lemma_fit_target_issues_empty_upto(
    ms: Seq<FitTargetCheck>,
    n: int,
    ship_group_id: i32,
    ship_type_id: i32,
)
    requires
        0 <= n <= ms.len(),
    ensures
        fit_target_issues(ms, n, ship_group_id, ship_type_id).len() == 0 <==> forall|i: int|
            0 <= i < n ==> fits_ship(#[trigger] ms[i], ship_group_id, ship_type_id),
    decreases n,
{
    if n > 0 {
        lemma_fit_target_issues_empty_upto(ms, n - 1, ship_group_id, ship_type_id);
        lemma_fit_target_issue_exact(ms[n - 1], ship_group_id, ship_type_id);
    }
}

/// Checks fitting restrictions: a module that names ship groups or ship
/// types it can be fitted to, none of which is the ship's, is reported
/// once for the groups it names and once for the types it names.
pub fn validate_fit_targets(
    modules: &Vec<FitTargetCheck>,
    ship_group_id: i32,
    ship_type_id: i32,
    issues: &mut Vec<ValidationIssue>,
)
    ensures
        issue_views(final(issues)@) == issue_views(old(issues)@) + fit_target_issues(
            modules@,
            modules@.len() as int,
            ship_group_id,
            ship_type_id,
        ),
{
    let group_ids = can_fit_group_ids();
    let type_ids = can_fit_type_ids();
    let ghost start = issue_views(issues@);
    let mut i: usize = 0;
    while i < modules.len()
        invariant
            i <= modules@.len(),
            group_ids@ == can_fit_group_attribute_ids(),
            type_ids@ == can_fit_type_attribute_ids(),
            issue_views(issues@) == start + fit_target_issues(
                modules@,
                i as int,
                ship_group_id,
                ship_type_id,
            ),
        decreases modules@.len() - i,
    {
        let m = &modules[i];
        let ghost before = issue_views(issues@);
        let slot_type = validation_slot_type(m.slot_type).unwrap();
        let groups = collect_listed_values(&m.attributes, &group_ids);
        let types = collect_listed_values(&m.attributes, &type_ids);
        let group_matches = contains_id(&groups, ship_group_id);
        let type_matches = contains_id(&types, ship_type_id);
        if !(group_matches || type_matches || (groups.len() == 0 && types.len() == 0)) {
            let has_groups = groups.len() != 0;
            let has_types = types.len() != 0;
            if has_groups {
                push_issue(
                    issues,
                    ValidationIssue {
                        slot_type,
                        index: Some(m.index),
                        kind: ValidationIssueKind::Error(
                            ValidationErrorKey::IncompatibleShipGroup { expected: groups },
                        ),
                    },
                );
            }
            if has_types {
                push_issue(
                    issues,
                    ValidationIssue {
                        slot_type,
                        index: Some(m.index),
                        kind: ValidationIssueKind::Error(
                            ValidationErrorKey::IncompatibleShipType { expected: types },
                        ),
                    },
                );
            }
        }
        assert(issue_views(issues@) =~= before + fit_target_issue(
            modules@[i as int],
            ship_group_id,
            ship_type_id,
        ));
        assert(issue_views(issues@) =~= start + fit_target_issues(
            modules@,
            i + 1,
            ship_group_id,
            ship_type_id,
        ));
        i = i + 1;
    }
}

/// The non-zero values, in order, among the first `n` of `values`.
pub open spec fn nonzero_values(values: Seq<i32>, n: int) -> Seq<i32>
    decreases n,
{
    if n <= 0 {
        seq![]
    } else {
        nonzero_values(values, n - 1) + if values[n - 1] != 0 {
            seq![values[n - 1]]
        } else {
            seq![]
        }
    }
}

/// The charge loaded in a module, as the charge check sees it.
#[derive(Debug, Clone, Copy, PartialEq, Eq, Structural)]
pub struct LoadedCharge {
    /// The charge's size attribute, if it has one.
    pub size: Option<u8>,
    /// The group of the charge's type.
    pub group_id: Option<i32>,
}

/// A module in a high, medium or low slot, as the charge check sees it.
#[derive(Debug, Clone)]
pub struct ChargeCheck {
    pub slot_type: ValidationSlotType,
    pub index: Option<i32>,
    /// The module's charge size attribute, if it has one.
    pub charge_size: Option<u8>,
    /// The values of the module's charge group attributes that it has, in
    /// attribute order, converted to group IDs.
    pub charge_group_values: Vec<i32>,
    /// Whether the module has an ammo capacity attribute.
    pub has_ammo_capacity: bool,
    /// Whether the module has a positive charge rate.
    pub charge_rate_positive: bool,
    pub charge: Option<LoadedCharge>,
}

/// The charge groups a module accepts: its non-zero charge group values.
pub open spec fn accepted_charge_groups(m: ChargeCheck) -> Seq<i32> {
    nonzero_values(m.charge_group_values@, m.charge_group_values@.len() as int)
}

/// The charge issues of a module, in order: a loaded charge of another
/// size, a loaded charge outside the accepted groups; or, without a charge,
/// a warning when the module consumes charges.
pub open spec fn charge_issues(m: ChargeCheck) -> Seq<IssueView> {
    let accepted = accepted_charge_groups(m);
    match m.charge {
        Some(c) => (match (m.charge_size, c.size) {
            (Some(expected), Some(actual)) => if expected != actual {
                seq![
                    error_view(
                        m.slot_type,
                        m.index,
                        ErrorKeyView::IncompatibleChargeSize { expected, actual },
                    ),
                ]
            } else {
                seq![]
            },
            _ => seq![],
        }) + if accepted.len() != 0 {
            match c.group_id {
                Some(actual) => if !accepted.contains(actual) {
                    seq![
                        error_view(
                            m.slot_type,
                            m.index,
                            ErrorKeyView::IncompatibleChargeGroup { expected: accepted, actual },
                        ),
                    ]
                } else {
                    seq![]
                },
                None => seq![],
            }
        } else {
            seq![]
        },
        None => if m.has_ammo_capacity && accepted.len() != 0 && m.charge_rate_positive {
            seq![
                IssueView {
                    slot_type: m.slot_type,
                    index: m.index,
                    kind: IssueKindView::Warning(ValidationWarningKey::MissingCharge),
                },
            ]
        } else {
            seq![]
        },
    }
}

/// Charge size: when both the module and its loaded charge have a charge
/// size, an `IncompatibleChargeSize` error with both sizes is reported
/// exactly when they differ, whichever is larger; no other charge size
/// error is ever reported for the module.
pub proof fn lemma_charge_size_mismatch_reported(m: ChargeCheck, expected: u8, actual: u8)
    ensures
        charge_issues(m).contains(
            error_view(
                m.slot_type,
                m.index,
                ErrorKeyView::IncompatibleChargeSize { expected, actual },
            ),
        ) <==> (m.charge_size == Some(expected) && m.charge is Some && m.charge->0.size == Some(
            actual,
        ) && expected != actual),
        forall|x: IssueView|
            #[trigger] charge_issues(m).contains(x) && x.kind is Error
                && x.kind->Error_0 is IncompatibleChargeSize ==> x == error_view(
                m.slot_type,
                m.index,
                ErrorKeyView::IncompatibleChargeSize {
                    expected: m.charge_size->0,
                    actual: m.charge->0.size->0,
                },
            ) && m.charge_size is Some && m.charge is Some && m.charge->0.size is Some
                && m.charge_size->0 != m.charge->0.size->0,
{
    broadcast use vstd::seq_lib::lemma_seq_concat_contains_all_elements;
    broadcast use vstd::seq_lib::lemma_seq_contains_after_push;
    broadcast use vstd::seq_lib::lemma_seq_empty_contains_nothing;

}

proof fn lemma_nonzero_values_contents(values: Seq<i32>, n: int, x: i32)
    requires
        0 <= n <= values.len(),
    ensures
        nonzero_values(values, n).contains(x) <==> exists|j: int|
            0 <= j < n && #[trigger] values[j] != 0 && values[j] == x,
        nonzero_values(values, n).len() == 0 <==> forall|j: int| 0 <= j < n ==> #[trigger] values[j] == 0,
    decreases n,
{
    broadcast use vstd::seq_lib::lemma_seq_concat_contains_all_elements;
    broadcast use vstd::seq_lib::lemma_seq_contains_after_push;
    broadcast use vstd::seq_lib::lemma_seq_empty_contains_nothing;

    if n > 0 {
        lemma_nonzero_values_contents(values, n - 1, x);
    }
}

/// Charge groups and missing charges: a loaded charge of a known group is
/// reported, with the module's non-zero charge groups, exactly when the
/// module names some charge group and none of them is the charge's; a
/// module without a charge is warned about exactly when it has an ammo
/// capacity, a positive charge rate and names some charge group.
pub proof fn lemma_charge_group_issues_exact(m: ChargeCheck, group_id: i32)
    ensures
        charge_issues(m).contains(
            error_view(
                m.slot_type,
                m.index,
                ErrorKeyView::IncompatibleChargeGroup {
                    expected: accepted_charge_groups(m),
                    actual: group_id,
                },
            ),
        ) <==> m.charge is Some && m.charge->0.group_id == Some(group_id) && (exists|j: int|
            0 <= j < m.charge_group_values@.len() && #[trigger] m.charge_group_values@[j] != 0)
            && !(exists|j: int|
            0 <= j < m.charge_group_values@.len() && #[trigger] m.charge_group_values@[j] != 0
                && m.charge_group_values@[j] == group_id),
        charge_issues(m).contains(
            IssueView {
                slot_type: m.slot_type,
                index: m.index,
                kind: IssueKindView::Warning(ValidationWarningKey::MissingCharge),
            },
        ) <==> m.charge is None && m.has_ammo_capacity && m.charge_rate_positive && (exists|j: int|
            0 <= j < m.charge_group_values@.len() && #[trigger] m.charge_group_values@[j] != 0),
        forall|x: i32|
            #[trigger] accepted_charge_groups(m).contains(x) <==> exists|j: int|
                0 <= j < m.charge_group_values@.len() && #[trigger] m.charge_group_values@[j] != 0
                    && m.charge_group_values@[j] == x,
{
    broadcast use vstd::seq_lib::lemma_seq_concat_contains_all_elements;
    broadcast use vstd::seq_lib::lemma_seq_contains_after_push;
    broadcast use vstd::seq_lib::lemma_seq_empty_contains_nothing;

    let values = m.charge_group_values@;
    lemma_nonzero_values_contents(values, values.len() as int, group_id);
    assert forall|x: i32|
        #[trigger] accepted_charge_groups(m).contains(x) <==> exists|j: int|
            0 <= j < values.len() && #[trigger] values[j] != 0 && values[j] == x by {
        lemma_nonzero_values_contents(values, values.len() as int, x);
    }
}

fn nonzero_ids(values: &Vec<i32>) -> (res: Vec<i32>)
    ensures
        res@ == nonzero_values(values@, values@.len() as int),
{
    let mut res: Vec<i32> = Vec::new();
    let mut i: usize = 0;
    while i < values.len()
        invariant
            i <= values@.len(),
            res@ == nonzero_values(values@, i as int),
        decreases values@.len() - i,
    {
        if values[i] != 0 {
            res.push(values[i]);
        }
        assert(res@ =~= nonzero_values(values@, i + 1));
        i = i + 1;
    }
    res
}

/// Checks the charge of one module (the volume check aside): size and
/// group of a loaded charge, or a missing charge for a module that
/// consumes charges.
pub fn validate_charge(m: &ChargeCheck, issues: &mut Vec<ValidationIssue>)
    ensures
        issue_views(final(issues)@) == issue_views(old(issues)@) + charge_issues(*m),
{
    let accepted = nonzero_ids(&m.charge_group_values);
    match m.charge {
        Some(c) => {
            match (m.charge_size, c.size) {
                (Some(expected), Some(actual)) => {
                    if expected != actual {
                        push_issue(
                            issues,
                            ValidationIssue {
                                slot_type: m.slot_type,
                                index: m.index,
                                kind: ValidationIssueKind::Error(
                                    ValidationErrorKey::IncompatibleChargeSize { expected, actual },
                                ),
                            },
                        );
                    }
                },
                _ => {},
            }
            if accepted.len() != 0 {
                match c.group_id {
                    Some(actual) => {
                        if !contains_id(&accepted, actual) {
                            push_issue(
                                issues,
                                ValidationIssue {
                                    slot_type: m.slot_type,
                                    index: m.index,
                                    kind: ValidationIssueKind::Error(
                                        ValidationErrorKey::IncompatibleChargeGroup {
                                            expected: accepted,
                                            actual,
                                        },
                                    ),
                                },
                            );
                        }
                    },
                    None => {},
                }
            }
        },
        None => {
            if m.has_ammo_capacity && accepted.len() != 0 && m.charge_rate_positive {
                push_issue(
                    issues,
                    ValidationIssue {
                        slot_type: m.slot_type,
                        index: m.index,
                        kind: ValidationIssueKind::Warning(ValidationWarningKey::MissingCharge),
                    },
                );
            }
        },
    }
    assert(issue_views(issues@) =~= issue_views(old(issues)@) + charge_issues(*m));
}

/// An active module in a high, medium or low slot, as the group activation
/// check sees it.
#[derive(Debug, Clone, Copy, PartialEq, Eq, Structural)]
pub struct ActiveModuleCheck {
    pub slot_type: ValidationSlotType,
    pub index: Option<i32>,
    /// The module's limit on active modules of its group, if it has one.
    pub max_active: Option<usize>,
    /// The group of the module's type.
    pub group_id: Option<i32>,
}

/// A module counts against its group's activation limit when it has a
/// positive limit and a group.
pub open spec fn is_limited(m: ActiveModuleCheck) -> bool {
    m.max_active is Some && m.max_active.unwrap() > 0 && m.group_id is Some
}

/// The number of limited modules of group `g` among the first `n`.
pub open spec fn group_active_count(ms: Seq<ActiveModuleCheck>, n: int, g: i32) -> nat
    decreases n,
{
    if n <= 0 {
        0
    } else {
        group_active_count(ms, n - 1, g) + if is_limited(ms[n - 1]) && ms[n - 1].group_id == Some(
            g,
        ) {
            1nat
        } else {
            0nat
        }
    }
}

/// The smallest limit among the limited modules of group `g` among the
/// first `n`, or `bound` if it is smaller.
pub open spec fn group_active_limit(ms: Seq<ActiveModuleCheck>, n: int, g: i32, bound: nat) -> nat
    decreases n,
{
    if n <= 0 {
        bound
    } else {
        let prev = group_active_limit(ms, n - 1, g, bound);
        if is_limited(ms[n - 1]) && ms[n - 1].group_id == Some(g) && (ms[n - 1].max_active.unwrap()
            as nat) < prev {
            ms[n - 1].max_active.unwrap() as nat
        } else {
            prev
        }
    }
}

/// Whether the active modules of group `g` exceed the smallest limit any
/// of them sets.
pub open spec fn group_over_limit(ms: Seq<ActiveModuleCheck>, g: i32) -> bool {
    let n = ms.len() as int;
    group_active_count(ms, n, g) > group_active_limit(ms, n, g, usize::MAX as nat)
}

pub open spec fn active_group_issue(ms: Seq<ActiveModuleCheck>, k: int) -> Seq<IssueView> {
    if is_limited(ms[k]) && group_over_limit(ms, ms[k].group_id.unwrap()) {
        seq![
            error_view(
                ms[k].slot_type,
                ms[k].index,
                ErrorKeyView::ConflictItem { group_id: ms[k].group_id.unwrap() },
            ),
        ]
    } else {
        seq![]
    }
}

pub open spec fn active_group_issues(ms: Seq<ActiveModuleCheck>, n: int) -> Seq<IssueView>
    decreases n,
{
    if n <= 0 {
        seq![]
    } else {
        active_group_issues(ms, n - 1) + active_group_issue(ms, n - 1)
    }
}

fn limited(m: &ActiveModuleCheck) -> (res: bool)
    ensures
        res == is_limited(*m),
{
    match (m.max_active, m.group_id) {
        (Some(limit), Some(_)) => limit > 0,
        _ => false,
    }
}

/// Whether the active modules of group `g` exceed their smallest limit.
fn over_limit(modules: &Vec<ActiveModuleCheck>, g: i32) -> (res: bool)
    ensures
        res == group_over_limit(modules@, g),
{
    let mut count: usize = 0;
    let mut limit: usize = usize::MAX;
    let mut i: usize = 0;
    while i < modules.len()
        invariant
            i <= modules@.len(),
            count == group_active_count(modules@, i as int, g),
            count <= i,
            limit as nat == group_active_limit(modules@, i as int, g, usize::MAX as nat),
        decreases modules@.len() - i,
    {
        let m = modules[i];
        if limited(&m) && m.group_id == Some(g) {
            count = count + 1;
            let l = m.max_active.unwrap();
            if l < limit {
                limit = l;
            }
        }
        i = i + 1;
    }
    count > limit
}

/// Reports every limited module (in order) whose group has more active
/// limited modules than the smallest limit among them.
fn check_active_module_groups(
    modules: &Vec<ActiveModuleCheck>,
    issues: &mut Vec<ValidationIssue>,
)
    ensures
        issue_views(final(issues)@) == issue_views(old(issues)@) + active_group_issues(
            modules@,
            modules@.len() as int,
        ),
{
    let ghost start = issue_views(issues@);
    let mut i: usize = 0;
    while i < modules.len()
        invariant
            i <= modules@.len(),
            issue_views(issues@) == start + active_group_issues(modules@, i as int),
        decreases modules@.len() - i,
    {
        let m = modules[i];
        if limited(&m) {
            let g = m.group_id.unwrap();
            if over_limit(modules, g) {
                push_issue(
                    issues,
                    ValidationIssue {
                        slot_type: m.slot_type,
                        index: m.index,
                        kind: ValidationIssueKind::Error(ValidationErrorKey::ConflictItem { group_id: g }),
                    },
                );
            }
        }
        assert(issue_views(issues@) =~= start + active_group_issues(modules@, i + 1));
        i = i + 1;
    }
}

proof fn lemma_group_active_limit_is_least(ms: Seq<ActiveModuleCheck>, n: int, g: i32, bound: nat)
    requires
        0 <= n <= ms.len(),
    ensures
        group_active_limit(ms, n, g, bound) <= bound,
        forall|j: int|
            0 <= j < n && is_limited(#[trigger] ms[j]) && ms[j].group_id == Some(g)
                ==> group_active_limit(ms, n, g, bound) <= ms[j].max_active->0,
        group_active_limit(ms, n, g, bound) == bound || exists|j: int|
            0 <= j < n && is_limited(#[trigger] ms[j]) && ms[j].group_id == Some(g)
                && group_active_limit(ms, n, g, bound) == ms[j].max_active->0,
    decreases n,
{
    if n > 0 {
        lemma_group_active_limit_is_least(ms, n - 1, g, bound);
    }
}

proof fn lemma_group_active_count_positive(ms: Seq<ActiveModuleCheck>, n: int, g: i32)
    requires
        0 <= n <= ms.len(),
    ensures
        group_active_count(ms, n, g) > 0 ==> exists|j: int|
            0 <= j < n && is_limited(#[trigger] ms[j]) && ms[j].group_id == Some(g),
    decreases n,
{
    if n > 0 {
        lemma_group_active_count_positive(ms, n - 1, g);
    }
}

/// A group is over its limit exactly when one of its limited modules sets
/// a limit below the number of limited modules of the group.
proof fn lemma_group_over_limit_witness(ms: Seq<ActiveModuleCheck>, g: i32)
    ensures
        group_over_limit(ms, g) <==> exists|j: int|
            0 <= j < ms.len() && is_limited(#[trigger] ms[j]) && ms[j].group_id == Some(g)
                && ms[j].max_active->0 < group_active_count(ms, ms.len() as int, g),
{
    let n = ms.len() as int;
    lemma_group_active_limit_is_least(ms, n, g, usize::MAX as nat);
    lemma_group_active_count_positive(ms, n, g);
}

proof fn lemma_active_group_issues_contents(ms: Seq<ActiveModuleCheck>, n: int, x: IssueView)
    requires
        0 <= n <= ms.len(),
    ensures
        active_group_issues(ms, n).contains(x) <==> exists|k: int|
            0 <= k < n && is_limited(#[trigger] ms[k]) && group_over_limit(ms, ms[k].group_id->0)
                && x == error_view(
                ms[k].slot_type,
                ms[k].index,
                ErrorKeyView::ConflictItem { group_id: ms[k].group_id->0 },
            ),
    decreases n,
{
    broadcast use vstd::seq_lib::lemma_seq_concat_contains_all_elements;
    broadcast use vstd::seq_lib::lemma_seq_contains_after_push;
    broadcast use vstd::seq_lib::lemma_seq_empty_contains_nothing;

    if n > 0 {
        lemma_active_group_issues_contents(ms, n - 1, x);
    }
}

/// Group activation limits: a module is reported as conflicting, with its
/// slot, index and group, exactly when it has a positive limit and a group,
/// and some module of that group with a positive limit allows fewer active
/// modules than the group has.
pub proof fn lemma_active_group_issues_exact(ms: Seq<ActiveModuleCheck>, x: IssueView)
    ensures
        active_group_issues(ms, ms.len() as int).contains(x) <==> exists|k: int|
            0 <= k < ms.len() && (#[trigger] ms[k]).max_active is Some && ms[k].max_active->0 > 0
                && ms[k].group_id is Some && (exists|j: int|
                0 <= j < ms.len() && (#[trigger] ms[j]).max_active is Some && ms[j].max_active->0
                    > 0 && ms[j].group_id == ms[k].group_id && ms[j].max_active->0
                    < group_active_count(ms, ms.len() as int, ms[k].group_id->0)) && x == error_view(
                ms[k].slot_type,
                ms[k].index,
                ErrorKeyView::ConflictItem { group_id: ms[k].group_id->0 },
            ),
{
    lemma_active_group_issues_contents(ms, ms.len() as int, x);
    assert forall|k: int| 0 <= k < ms.len() && is_limited(#[trigger] ms[k]) implies (group_over_limit(
        ms,
        ms[k].group_id->0,
    ) <==> exists|j: int|
        0 <= j < ms.len() && (#[trigger] ms[j]).max_active is Some && ms[j].max_active->0 > 0
            && ms[j].group_id == ms[k].group_id && ms[j].max_active->0 < group_active_count(
            ms,
            ms.len() as int,
            ms[k].group_id->0,
        )) by {
        lemma_group_over_limit_witness(ms, ms[k].group_id->0);
    }
}

/// A calculated item, as the group activation check sees it.
#[derive(Debug, Clone, Copy, PartialEq, Eq, Structural)]
pub struct GroupLimitItem {
    pub slot_type: SlotType,
    pub index: Option<i32>,
    pub state: EffectCategory,
    /// The item's limit on active modules of its group, if it has one.
    pub max_active: Option<usize>,
    /// The group of the item's type.
    pub group_id: Option<i32>,
}

/// The calculated item as a module counted by the group activation check:
/// only active items in high, medium and low slots are.
pub open spec fn group_limit_candidate(item: GroupLimitItem) -> Option<ActiveModuleCheck> {
    if spec_is_primary_module_slot(item.slot_type) && item.state.spec_is_active() {
        match spec_output_validation_slot_type(item.slot_type) {
            Some(slot_type) => Some(
                ActiveModuleCheck {
                    slot_type,
                    index: item.index,
                    max_active: item.max_active,
                    group_id: item.group_id,
                },
            ),
            None => None,
        }
    } else {
        None
    }
}

/// The modules counted among the first `n` calculated items, in order.
pub open spec fn group_limit_candidates(items: Seq<GroupLimitItem>, n: int) -> Seq<ActiveModuleCheck>
    decreases n,
{
    if n <= 0 {
        seq![]
    } else {
        group_limit_candidates(items, n - 1) + match group_limit_candidate(items[n - 1]) {
            Some(m) => seq![m],
            None => seq![],
        }
    }
}

proof fn lemma_group_limit_candidates_contents(
    items: Seq<GroupLimitItem>,
    n: int,
    c: ActiveModuleCheck,
)
    requires
        0 <= n <= items.len(),
    ensures
        group_limit_candidates(items, n).contains(c) <==> exists|i: int|
            0 <= i < n && spec_is_primary_module_slot((#[trigger] items[i]).slot_type)
                && items[i].state.spec_is_active() && spec_output_validation_slot_type(
                items[i].slot_type,
            ) == Some(c.slot_type) && c.index == items[i].index && c.max_active
                == items[i].max_active && c.group_id == items[i].group_id,
    decreases n,
{
    broadcast use vstd::seq_lib::lemma_seq_concat_contains_all_elements;
    broadcast use vstd::seq_lib::lemma_seq_contains_after_push;
    broadcast use vstd::seq_lib::lemma_seq_empty_contains_nothing;

    if n > 0 {
        lemma_group_limit_candidates_contents(items, n - 1, c);
    }
}

/// The modules the group activation check counts are exactly the active
/// (or overloaded) calculated items in high, medium and low slots, each
/// with its report section, index, limit and group.
pub proof fn lemma_group_limit_candidates_exact(items: Seq<GroupLimitItem>, c: ActiveModuleCheck)
    ensures
        group_limit_candidates(items, items.len() as int).contains(c) <==> exists|i: int|
            0 <= i < items.len() && spec_is_primary_module_slot((#[trigger] items[i]).slot_type)
                && items[i].state.spec_is_active() && spec_output_validation_slot_type(
                items[i].slot_type,
            ) == Some(c.slot_type) && c.index == items[i].index && c.max_active
                == items[i].max_active && c.group_id == items[i].group_id,
{
    lemma_group_limit_candidates_contents(items, items.len() as int, c);
}

/// Checks group activation limits over the calculated items: among the
/// active items in high, medium and low slots, every limited one (in order)
/// whose group has more active limited modules than the smallest limit
/// among them is reported as conflicting.
pub fn validate_max_active_groups(items: &Vec<GroupLimitItem>, issues: &mut Vec<ValidationIssue>)
    ensures
        issue_views(final(issues)@) == issue_views(old(issues)@) + active_group_issues(
            group_limit_candidates(items@, items@.len() as int),
            group_limit_candidates(items@, items@.len() as int).len() as int,
        ),
{
    let mut modules: Vec<ActiveModuleCheck> = Vec::new();
    let mut i: usize = 0;
    while i < items.len()
        invariant
            i <= items@.len(),
            modules@ == group_limit_candidates(items@, i as int),
        decreases items@.len() - i,
    {
        let item = items[i];
        if is_primary_module_slot(item.slot_type) && item.state.is_active() {
            match output_validation_slot_type(item.slot_type) {
                Some(slot_type) => {
                    modules.push(
                        ActiveModuleCheck {
                            slot_type,
                            index: item.index,
                            max_active: item.max_active,
                            group_id: item.group_id,
                        },
                    );
                },
                None => {},
            }
        }
        assert(modules@ =~= group_limit_candidates(items@, i + 1));
        i = i + 1;
    }
    check_active_module_groups(&modules, issues);
}

/// The positions, with their report sections, of the first `n` calculated
/// items whose charges are checked: those in high, medium and low slots.
pub open spec fn charge_positions(slot_types: Seq<SlotType>, n: int) -> Seq<
    (usize, ValidationSlotType),
>
    decreases n,
{
    if n <= 0 {
        seq![]
    } else {
        charge_positions(slot_types, n - 1) + if spec_is_primary_module_slot(slot_types[n - 1]) {
            match spec_output_validation_slot_type(slot_types[n - 1]) {
                Some(slot_type) => seq![((n - 1) as usize, slot_type)],
                None => seq![],
            }
        } else {
            seq![]
        }
    }
}

/// The calculated items whose charges are checked, given their slot types:
/// each item in a high, medium or low slot, in order, with the section it
/// is reported in.
pub fn charge_checked_items(slot_types: &Vec<SlotType>) -> (res: Vec<(usize, ValidationSlotType)>)
    ensures
        res@ == charge_positions(slot_types@, slot_types@.len() as int),
{
    let mut res: Vec<(usize, ValidationSlotType)> = Vec::new();
    let mut i: usize = 0;
    while i < slot_types.len()
        invariant
            i <= slot_types@.len(),
            res@ == charge_positions(slot_types@, i as int),
        decreases slot_types@.len() - i,
    {
        if is_primary_module_slot(slot_types[i]) {
            match output_validation_slot_type(slot_types[i]) {
                Some(slot_type) => {
                    res.push((i, slot_type));
                },
                None => {},
            }
        }
        assert(res@ =~= charge_positions(slot_types@, i + 1));
        i = i + 1;
    }
    res
}

proof fn lemma_charge_positions_contents(slot_types: Seq<SlotType>, n: int, p: (usize, ValidationSlotType))
    requires
        0 <= n <= slot_types.len() <= usize::MAX,
    ensures
        charge_positions(slot_types, n).contains(p) <==> p.0 < n && spec_is_primary_module_slot(
            slot_types[p.0 as int],
        ) && spec_output_validation_slot_type(slot_types[p.0 as int]) == Some(p.1),
    decreases n,
{
    broadcast use vstd::seq_lib::lemma_seq_concat_contains_all_elements;
    broadcast use vstd::seq_lib::lemma_seq_contains_after_push;
    broadcast use vstd::seq_lib::lemma_seq_empty_contains_nothing;

    if n > 0 {
        lemma_charge_positions_contents(slot_types, n - 1, p);
    }
}

/// The items whose charges are checked are exactly those in high, medium
/// and low slots, each once, in item order, each with the section its slot
/// is reported in.
pub proof fn lemma_charge_positions_exact(slot_types: Seq<SlotType>, p: (usize, ValidationSlotType))
    requires
        slot_types.len() <= usize::MAX,
    ensures
        charge_positions(slot_types, slot_types.len() as int).contains(p) <==> p.0
            < slot_types.len() && spec_is_primary_module_slot(slot_types[p.0 as int])
            && spec_output_validation_slot_type(slot_types[p.0 as int]) == Some(p.1),
        forall|a: int, b: int|
            0 <= a < b < charge_positions(slot_types, slot_types.len() as int).len() ==> (
            #[trigger] charge_positions(slot_types, slot_types.len() as int)[a]).0
                < (#[trigger] charge_positions(slot_types, slot_types.len() as int)[b]).0,
{
    lemma_charge_positions_contents(slot_types, slot_types.len() as int, p);
    lemma_charge_positions_ordered(slot_types, slot_types.len() as int);
}

proof fn lemma_charge_positions_ordered(slot_types: Seq<SlotType>, n: int)
    requires
        0 <= n <= slot_types.len() <= usize::MAX,
    ensures
        forall|a: int|
            0 <= a < charge_positions(slot_types, n).len() ==> (#[trigger] charge_positions(
                slot_types,
                n,
            )[a]).0 < n,
        forall|a: int, b: int|
            0 <= a < b < charge_positions(slot_types, n).len() ==> (#[trigger] charge_positions(
                slot_types,
                n,
            )[a]).0 < (#[trigger] charge_positions(slot_types, n)[b]).0,
    decreases n,
{
    if n > 0 {
        lemma_charge_positions_ordered(slot_types, n - 1);
        let prev = charge_positions(slot_types, n - 1);
        let s = charge_positions(slot_types, n);
        assert forall|a: int| 0 <= a < s.len() implies (#[trigger] s[a]).0 < n by {
            if a < prev.len() {
                assert(s[a] == prev[a]);
            }
        }
        assert forall|a: int, b: int| 0 <= a < b < s.len() implies (#[trigger] s[a]).0
            < (#[trigger] s[b]).0 by {
            if b < prev.len() {
                assert(s[a] == prev[a]);
                assert(s[b] == prev[b]);
            } else {
                assert(s[a] == prev[a]);
            }
        }
    }
}

/// The Pulse Activated Nexus Invulnerability Core (PANIC).
pub const TYPE_PANIC: i32 = 42522;

/// The Capital Asteroid Ore Compressor I.
pub const TYPE_CAPITAL_ASTEROID_ORE_COMPRESSOR: i32 = 62632;

/// The Capital Industrial Core II.
pub const TYPE_CAPITAL_INDUSTRIAL_CORE_II: i32 = 42890;

/// The modules that only work while an industrial core is active.
pub open spec fn needs_industrial_core(type_id: i32) -> bool {
    type_id == TYPE_PANIC || type_id == TYPE_CAPITAL_ASTEROID_ORE_COMPRESSOR
}

/// The industrial cores.
pub open spec fn is_industrial_core(type_id: i32) -> bool {
    type_id == TYPE_CAPITAL_INDUSTRIAL_CORE_II
}

/// A calculated item, as the industrial core check sees it.
#[derive(Debug, Clone, Copy, PartialEq, Eq, Structural)]
pub struct IndustrialCoreCheck {
    pub slot_type: SlotType,
    pub index: Option<i32>,
    pub type_id: i32,
    pub state: EffectCategory,
}

/// Whether an industrial core is active among the first `n` items.
pub open spec fn core_active(items: Seq<IndustrialCoreCheck>, n: int) -> bool
    decreases n,
{
    if n <= 0 {
        false
    } else {
        core_active(items, n - 1) || (is_industrial_core(items[n - 1].type_id)
            && items[n - 1].state.spec_is_active())
    }
}

pub open spec fn core_issue(items: Seq<IndustrialCoreCheck>, k: int) -> Seq<IssueView> {
    let item = items[k];
    if needs_industrial_core(item.type_id) && item.state.spec_is_active() && !core_active(
        items,
        items.len() as int,
    ) {
        match spec_output_validation_slot_type(item.slot_type) {
            Some(slot_type) => seq![
                error_view(slot_type, item.index, ErrorKeyView::RequiresActiveIndustrialCore),
            ],
            None => seq![],
        }
    } else {
        seq![]
    }
}

pub open spec fn core_issues(items: Seq<IndustrialCoreCheck>, n: int) -> Seq<IssueView>
    decreases n,
{
    if n <= 0 {
        seq![]
    } else {
        core_issues(items, n - 1) + core_issue(items, n - 1)
    }
}

/// Reports, in order, every active module that only works while an
/// industrial core is active (the PANIC, ore compressors), when no
/// industrial core of the ship is active.
pub fn validate_industrial_core(items: &Vec<IndustrialCoreCheck>, issues: &mut Vec<ValidationIssue>)
    ensures
        issue_views(final(issues)@) == issue_views(old(issues)@) + core_issues(
            items@,
            items@.len() as int,
        ),
{
    let mut active_core = false;
    let mut j: usize = 0;
    while j < items.len()
        invariant
            j <= items@.len(),
            active_core == core_active(items@, j as int),
        decreases items@.len() - j,
    {
        if items[j].type_id == TYPE_CAPITAL_INDUSTRIAL_CORE_II && items[j].state.is_active() {
            active_core = true;
        }
        j = j + 1;
    }
    let ghost start = issue_views(issues@);
    let mut i: usize = 0;
    while i < items.len()
        invariant
            i <= items@.len(),
            active_core == core_active(items@, items@.len() as int),
            issue_views(issues@) == start + core_issues(items@, i as int),
        decreases items@.len() - i,
    {
        let item = items[i];
        let needs = item.type_id == TYPE_PANIC || item.type_id == TYPE_CAPITAL_ASTEROID_ORE_COMPRESSOR;
        if needs && item.state.is_active() && !active_core {
            match output_validation_slot_type(item.slot_type) {
                Some(slot_type) => {
                    push_issue(
                        issues,
                        ValidationIssue {
                            slot_type,
                            index: item.index,
                            kind: ValidationIssueKind::Error(
                                ValidationErrorKey::RequiresActiveIndustrialCore,
                            ),
                        },
                    );
                },
                None => {},
            }
        }
        assert(issue_views(issues@) =~= start + core_issues(items@, i + 1));
        i = i + 1;
    }
}

proof fn lemma_core_active_exists(items: Seq<IndustrialCoreCheck>, n: int)
    requires
        0 <= n <= items.len(),
    ensures
        core_active(items, n) <==> exists|j: int|
            0 <= j < n && (#[trigger] items[j]).type_id == TYPE_CAPITAL_INDUSTRIAL_CORE_II
                && items[j].state.spec_is_active(),
    decreases n,
{
    if n > 0 {
        lemma_core_active_exists(items, n - 1);
    }
}

proof fn lemma_core_issues_contents(items: Seq<IndustrialCoreCheck>, n: int, x: IssueView)
    requires
        0 <= n <= items.len(),
    ensures
        core_issues(items, n).contains(x) <==> exists|i: int|
            0 <= i < n && needs_industrial_core((#[trigger] items[i]).type_id)
                && items[i].state.spec_is_active() && !core_active(items, items.len() as int)
                && spec_output_validation_slot_type(items[i].slot_type) is Some && x == error_view(
                spec_output_validation_slot_type(items[i].slot_type)->0,
                items[i].index,
                ErrorKeyView::RequiresActiveIndustrialCore,
            ),
    decreases n,
{
    broadcast use vstd::seq_lib::lemma_seq_concat_contains_all_elements;
    broadcast use vstd::seq_lib::lemma_seq_contains_after_push;
    broadcast use vstd::seq_lib::lemma_seq_empty_contains_nothing;

    if n > 0 {
        lemma_core_issues_contents(items, n - 1, x);
    }
}

/// Industrial cores: an item is reported exactly when it is a PANIC or a
/// capital ore compressor, it is active, it is reported in a section of its
/// own, and no Capital Industrial Core II of the ship is active; while a
/// core is active nothing is reported.
pub proof fn lemma_core_issues_exact(items: Seq<IndustrialCoreCheck>, x: IssueView)
    ensures
        core_issues(items, items.len() as int).contains(x) <==> exists|i: int|
            0 <= i < items.len() && ((#[trigger] items[i]).type_id == TYPE_PANIC || items[i].type_id
                == TYPE_CAPITAL_ASTEROID_ORE_COMPRESSOR) && items[i].state.spec_is_active() && !(exists|
                j: int,
            |
                0 <= j < items.len() && (#[trigger] items[j]).type_id
                    == TYPE_CAPITAL_INDUSTRIAL_CORE_II && items[j].state.spec_is_active())
                && spec_output_validation_slot_type(items[i].slot_type) is Some && x == error_view(
                spec_output_validation_slot_type(items[i].slot_type)->0,
                items[i].index,
                ErrorKeyView::RequiresActiveIndustrialCore,
            ),
        (exists|j: int|
            0 <= j < items.len() && (#[trigger] items[j]).type_id == TYPE_CAPITAL_INDUSTRIAL_CORE_II
                && items[j].state.spec_is_active()) ==> core_issues(items, items.len() as int).len()
            == 0,
{
    let s = core_issues(items, items.len() as int);
    lemma_core_active_exists(items, items.len() as int);
    lemma_core_issues_contents(items, items.len() as int, x);
    if s.len() != 0 {
        lemma_core_issues_contents(items, items.len() as int, s[0]);
        assert(s.contains(s[0]));
    }
}

} // verus!
