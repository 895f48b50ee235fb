//! Effect collection: which dogma modifiers of an item become effects, and
//! on which objects of the ship each effect is registered.

use vstd::prelude::*;

use crate::calculate::item::{Effect, EffectCategory, EffectOperator, Object, SlotType};
use crate::constant::{attribute_skills, is_penalty_exempt_category, spec_attribute_skills, CHARACTER_TYPE_ID};
use crate::constant::spec_exempt_penalty_category_ids;
use crate::fit::{
    DogmaEffect, DogmaEffectModifierInfo, DogmaEffectModifierInfoDomain,
    DogmaEffectModifierInfoFunc,
};

verus! {

/// How an effect selects the items it applies to.
#[derive(Debug, Clone, Copy, PartialEq, Eq, Structural)]
pub enum Modifier {
    LocationRequiredSkillModifier(i32),
    LocationGroupModifier(i32),
    LocationModifier,
    OwnerRequiredSkillModifier(i32),
    ItemModifier,
}

/// An effect found on an item, before it is registered on its targets.
#[derive(Debug, Clone, Copy, PartialEq, Eq, Structural)]
pub struct Pass2Effect {
    pub modifier: Modifier,
    pub operator: EffectOperator,
    pub source: Object,
    pub source_category: EffectCategory,
    pub source_attribute_id: i32,
    pub target: Object,
    pub target_attribute_id: i32,
}

pub open spec fn spec_modifier_func(
    func: DogmaEffectModifierInfoFunc,
    skill_type_id: Option<i32>,
    group_id: Option<i32>,
) -> Option<Modifier> {
    match func {
        DogmaEffectModifierInfoFunc::LocationRequiredSkillModifier => match skill_type_id {
            Some(s) => Some(Modifier::LocationRequiredSkillModifier(s)),
            None => None,
        },
        DogmaEffectModifierInfoFunc::LocationGroupModifier => match group_id {
            Some(g) => Some(Modifier::LocationGroupModifier(g)),
            None => None,
        },
        DogmaEffectModifierInfoFunc::LocationModifier => Some(Modifier::LocationModifier),
        DogmaEffectModifierInfoFunc::ItemModifier => Some(Modifier::ItemModifier),
        DogmaEffectModifierInfoFunc::OwnerRequiredSkillModifier => match skill_type_id {
            Some(s) => Some(Modifier::OwnerRequiredSkillModifier(s)),
            None => None,
        },
        DogmaEffectModifierInfoFunc::EffectStopper => None,
    }
}

/// The modifier a dogma modifier function describes. A skill modifier
/// without a skill, or a group modifier without a group, describes none;
/// `EffectStopper` has no effect on attributes, only on what can be
/// brought online.
pub fn get_modifier_func(
    func: DogmaEffectModifierInfoFunc,
    skill_type_id: Option<i32>,
    group_id: Option<i32>,
) -> (res: Option<Modifier>)
    ensures
        res == spec_modifier_func(func, skill_type_id, group_id),
{
    match func {
        DogmaEffectModifierInfoFunc::LocationRequiredSkillModifier => match skill_type_id {
            Some(s) => Some(Modifier::LocationRequiredSkillModifier(s)),
            None => None,
        },
        DogmaEffectModifierInfoFunc::LocationGroupModifier => match group_id {
            Some(g) => Some(Modifier::LocationGroupModifier(g)),
            None => None,
        },
        DogmaEffectModifierInfoFunc::LocationModifier => Some(Modifier::LocationModifier),
        DogmaEffectModifierInfoFunc::ItemModifier => Some(Modifier::ItemModifier),
        DogmaEffectModifierInfoFunc::OwnerRequiredSkillModifier => match skill_type_id {
            Some(s) => Some(Modifier::OwnerRequiredSkillModifier(s)),
            None => None,
        },
        DogmaEffectModifierInfoFunc::EffectStopper => None,
    }
}

/// Whether `origin` can be the origin of a modifier in `domain`: the
/// "other" item of a module is its charge and the other way round, and no
/// other object has one.
pub open spec fn target_defined(domain: DogmaEffectModifierInfoDomain, origin: Object) -> bool {
    domain == DogmaEffectModifierInfoDomain::OtherID ==> (origin is Item || origin is Charge)
}

pub open spec fn spec_target_object(domain: DogmaEffectModifierInfoDomain, origin: Object) -> Object {
    match domain {
        DogmaEffectModifierInfoDomain::ShipID => Object::Ship,
        DogmaEffectModifierInfoDomain::CharID => Object::Character,
        DogmaEffectModifierInfoDomain::OtherID => match origin {
            Object::Item(index) => Object::Charge(index),
            Object::Charge(index) => Object::Item(index),
            _ => origin,
        },
        DogmaEffectModifierInfoDomain::StructureID => Object::Structure,
        DogmaEffectModifierInfoDomain::ItemID => origin,
        DogmaEffectModifierInfoDomain::TargetID => Object::Target,
        DogmaEffectModifierInfoDomain::Target => Object::Target,
    }
}

/// The object a modifier in `domain` found on `origin` modifies.
pub fn get_target_object(domain: DogmaEffectModifierInfoDomain, origin: Object) -> (res: Object)
    requires
        target_defined(domain, origin),
    ensures
        res == spec_target_object(domain, origin),
{
    match domain {
        DogmaEffectModifierInfoDomain::ShipID => Object::Ship,
        DogmaEffectModifierInfoDomain::CharID => Object::Character,
        DogmaEffectModifierInfoDomain::OtherID => match origin {
            Object::Item(index) => Object::Charge(index),
            Object::Charge(index) => Object::Item(index),
            _ => origin,
        },
        DogmaEffectModifierInfoDomain::StructureID => Object::Structure,
        DogmaEffectModifierInfoDomain::ItemID => origin,
        DogmaEffectModifierInfoDomain::TargetID => Object::Target,
        DogmaEffectModifierInfoDomain::Target => Object::Target,
    }
}

pub open spec fn spec_effect_category(category: i32) -> EffectCategory {
    if category == 0 {
        EffectCategory::Passive
    } else if category == 1 {
        EffectCategory::Active
    } else if category == 2 {
        EffectCategory::Target
    } else if category == 3 {
        EffectCategory::Area
    } else if category == 4 {
        EffectCategory::Online
    } else if category == 5 {
        EffectCategory::Overload
    } else if category == 6 {
        EffectCategory::Dungeon
    } else {
        EffectCategory::System
    }
}

/// The effect category a data code names. Codes 0 to 7 are the known
/// categories.
pub fn get_effect_category(category: i32) -> (res: EffectCategory)
    requires
        0 <= category <= 7,
    ensures
        res == spec_effect_category(category),
{
    match category {
        0 => EffectCategory::Passive,
        1 => EffectCategory::Active,
        2 => EffectCategory::Target,
        3 => EffectCategory::Area,
        4 => EffectCategory::Online,
        5 => EffectCategory::Overload,
        6 => EffectCategory::Dungeon,
        _ => EffectCategory::System,
    }
}

/// The operation codes the data uses: -1 to 7 are operators, 9 (skill
/// level from skill points) is known and ignored.
pub open spec fn known_operation(operation: i32) -> bool {
    -1 <= operation <= 7 || operation == 9
}

pub open spec fn spec_effect_operator(operation: i32) -> Option<EffectOperator> {
    if operation == -1 {
        Some(EffectOperator::PreAssign)
    } else if operation == 0 {
        Some(EffectOperator::PreMul)
    } else if operation == 1 {
        Some(EffectOperator::PreDiv)
    } else if operation == 2 {
        Some(EffectOperator::ModAdd)
    } else if operation == 3 {
        Some(EffectOperator::ModSub)
    } else if operation == 4 {
        Some(EffectOperator::PostMul)
    } else if operation == 5 {
        Some(EffectOperator::PostDiv)
    } else if operation == 6 {
        Some(EffectOperator::PostPercent)
    } else if operation == 7 {
        Some(EffectOperator::PostAssign)
    } else {
        None
    }
}

/// The operator a data code names; `None` for code 9, which computes a
/// skill level from skill points and is irrelevant for fits.
pub fn get_effect_operator(operation: i32) -> (res: Option<EffectOperator>)
    requires
        known_operation(operation),
    ensures
        res == spec_effect_operator(operation),
{
    match operation {
        -1 => Some(EffectOperator::PreAssign),
        0 => Some(EffectOperator::PreMul),
        1 => Some(EffectOperator::PreDiv),
        2 => Some(EffectOperator::ModAdd),
        3 => Some(EffectOperator::ModSub),
        4 => Some(EffectOperator::PostMul),
        5 => Some(EffectOperator::PostDiv),
        6 => Some(EffectOperator::PostPercent),
        7 => Some(EffectOperator::PostAssign),
        _ => None,
    }
}

/// Whether an effect on an attribute is subject to the stacking penalty:
/// only when the attribute is not stackable and the source's category is
/// not exempt.
pub open spec fn spec_effect_penalty(stackable: bool, source_category_id: i32) -> bool {
    !stackable && !spec_exempt_penalty_category_ids().contains(source_category_id)
}

/// The effect record registered on a target attribute. `stackable` is the
/// target attribute's flag, `source_category_id` the category of the
/// source's type.
pub fn new_effect(effect: &Pass2Effect, stackable: bool, source_category_id: i32) -> (res: Effect)
    ensures
        res.operator == effect.operator,
        res.penalty == spec_effect_penalty(stackable, source_category_id),
        res.source == effect.source,
        res.source_category == effect.source_category,
        res.source_attribute_id == effect.source_attribute_id,
{
    let penalty = !stackable && !is_penalty_exempt_category(source_category_id);
    Effect {
        operator: effect.operator,
        penalty,
        source: effect.source,
        source_category: effect.source_category,
        source_attribute_id: effect.source_attribute_id,
    }
}


/// The effect state of an item that effect collection reads and updates:
/// its current state, the highest state it supports, and the IDs of its
/// effects that carry no attribute modifiers.
#[derive(Debug, Clone)]
pub struct EffectHolder {
    pub state: EffectCategory,
    pub max_state: EffectCategory,
    pub effects: Vec<i32>,
}

/// Whether collecting a modifier found on `origin` is defined: a modifier
/// that describes an effect names a known operation, and one whose operator
/// is kept (and which is not skipped for lack of a charge) has a defined
/// target and names both attributes.
pub open spec fn modifier_well_formed(
    m: DogmaEffectModifierInfo,
    origin: Object,
    has_charge: bool,
) -> bool {
    spec_modifier_func(m.func, m.skill_type_id, m.group_id) is Some ==> {
        &&& m.operation is Some
        &&& known_operation(m.operation.unwrap())
        &&& (spec_effect_operator(m.operation.unwrap()) is Some && !skipped_without_charge(
            m,
            origin,
            has_charge,
        )) ==> {
            &&& target_defined(m.domain, origin)
            &&& m.modifying_attribute_id is Some
            &&& m.modified_attribute_id is Some
        }
    }
}

/// A module without a charge has no "other" item: its modifiers on the
/// other item are skipped.
pub open spec fn skipped_without_charge(
    m: DogmaEffectModifierInfo,
    origin: Object,
    has_charge: bool,
) -> bool {
    origin is Item && m.domain == DogmaEffectModifierInfoDomain::OtherID && !has_charge
}

/// The effect a single modifier contributes, if any.
pub open spec fn modifier_outcome(
    m: DogmaEffectModifierInfo,
    category: EffectCategory,
    origin: Object,
    has_charge: bool,
) -> Option<Pass2Effect> {
    match spec_modifier_func(m.func, m.skill_type_id, m.group_id) {
        None => None,
        Some(modifier) => match spec_effect_operator(m.operation.unwrap()) {
            None => None,
            Some(operator) => if skipped_without_charge(m, origin, has_charge) {
                None
            } else {
                Some(
                    Pass2Effect {
                        modifier,
                        operator,
                        source: origin,
                        source_category: category,
                        source_attribute_id: m.modifying_attribute_id.unwrap(),
                        target: spec_target_object(m.domain, origin),
                        target_attribute_id: m.modified_attribute_id.unwrap(),
                    },
                )
            },
        },
    }
}

/// The effects the first `n` modifiers contribute, in order.
pub open spec fn modifier_effects(
    mods: Seq<DogmaEffectModifierInfo>,
    n: int,
    category: EffectCategory,
    origin: Object,
    has_charge: bool,
) -> Seq<Pass2Effect>
    decreases n,
{
    if n <= 0 {
        seq![]
    } else {
        let prev = modifier_effects(mods, n - 1, category, origin, has_charge);
        match modifier_outcome(mods[n - 1], category, origin, has_charge) {
            Some(e) => prev.push(e),
            None => prev,
        }
    }
}

/// Whether collecting the dogma effect `d` found on `origin` is defined.
pub open spec fn dogma_effect_well_formed(d: DogmaEffect, origin: Object, has_charge: bool) -> bool {
    &&& 0 <= d.effect_category <= 7
    &&& forall|j: int|
        0 <= j < d.modifier_info@.len() ==> modifier_well_formed(
            #[trigger] d.modifier_info@[j],
            origin,
            has_charge,
        )
}

/// Whether collecting all the dogma effects of an item is defined.
pub open spec fn entries_well_formed(
    entries: Seq<(i32, DogmaEffect)>,
    origin: Object,
    has_charge: bool,
) -> bool {
    forall|i: int|
        0 <= i < entries.len() ==> dogma_effect_well_formed(#[trigger] entries[i].1, origin, has_charge)
}

/// The effects the dogma effect `d` contributes.
pub open spec fn dogma_effect_effects(d: DogmaEffect, origin: Object, has_charge: bool) -> Seq<
    Pass2Effect,
> {
    modifier_effects(
        d.modifier_info@,
        d.modifier_info@.len() as int,
        spec_effect_category(d.effect_category),
        origin,
        has_charge,
    )
}

/// The effects the first `n` dogma effects of an item contribute, in order.
pub open spec fn collected_effects(
    entries: Seq<(i32, DogmaEffect)>,
    n: int,
    origin: Object,
    has_charge: bool,
) -> Seq<Pass2Effect>
    decreases n,
{
    if n <= 0 {
        seq![]
    } else {
        collected_effects(entries, n - 1, origin, has_charge) + dogma_effect_effects(
            entries[n - 1].1,
            origin,
            has_charge,
        )
    }
}

/// The IDs, in order, of the first `n` dogma effects that carry no
/// modifiers.
pub open spec fn plain_effect_ids(entries: Seq<(i32, DogmaEffect)>, n: int) -> Seq<i32>
    decreases n,
{
    if n <= 0 {
        seq![]
    } else {
        let prev = plain_effect_ids(entries, n - 1);
        if entries[n - 1].1.modifier_info@.len() == 0 {
            prev.push(entries[n - 1].0)
        } else {
            prev
        }
    }
}

/// The highest state supported after the first `n` dogma effects: each
/// effect whose category lies above the current maximum, and not above
/// `Overload`, raises it.
pub open spec fn raised_max_state(
    entries: Seq<(i32, DogmaEffect)>,
    n: int,
    max_state: EffectCategory,
) -> EffectCategory
    decreases n,
{
    if n <= 0 {
        max_state
    } else {
        let m = raised_max_state(entries, n - 1, max_state);
        let c = spec_effect_category(entries[n - 1].1.effect_category);
        if c.level() > m.level() && c.level() <= EffectCategory::Overload.level() {
            c
        } else {
            m
        }
    }
}

proof fn lemma_raised_max_state_grows(
    entries: Seq<(i32, DogmaEffect)>,
    n: int,
    max_state: EffectCategory,
)
    ensures
        raised_max_state(entries, n, max_state).level() >= max_state.level(),
    decreases n,
{
    if n > 0 {
        lemma_raised_max_state_grows(entries, n - 1, max_state);
    }
}

/// Every effect category at most `Overload` among the first `n` entries is
/// covered by the raised maximum, which is either the starting maximum or
/// one of those categories.
proof fn lemma_raised_max_state_bounds(
    entries: Seq<(i32, DogmaEffect)>,
    n: int,
    max_state: EffectCategory,
)
    requires
        0 <= n <= entries.len(),
    ensures
        raised_max_state(entries, n, max_state).level() >= max_state.level(),
        forall|i: int|
            0 <= i < n && spec_effect_category(entries[i].1.effect_category).level()
                <= EffectCategory::Overload.level() ==> raised_max_state(
                entries,
                n,
                max_state,
            ).level() >= (#[trigger] spec_effect_category(entries[i].1.effect_category)).level(),
        raised_max_state(entries, n, max_state) == max_state || exists|i: int|
            0 <= i < n && raised_max_state(entries, n, max_state) == #[trigger] spec_effect_category(
                entries[i].1.effect_category,
            ) && raised_max_state(entries, n, max_state).level()
                <= EffectCategory::Overload.level(),
    decreases n,
{
    if n > 0 {
        lemma_raised_max_state_bounds(entries, n - 1, max_state);
        let prev = raised_max_state(entries, n - 1, max_state);
        let c = spec_effect_category(entries[n - 1].1.effect_category);
        let r = raised_max_state(entries, n, max_state);
        assert forall|i: int|
            0 <= i < n && spec_effect_category(entries[i].1.effect_category).level()
                <= EffectCategory::Overload.level() implies r.level() >= (
        #[trigger] spec_effect_category(entries[i].1.effect_category)).level() by {
            if i < n - 1 {
                assert(prev.level() >= spec_effect_category(entries[i].1.effect_category).level());
            }
        }
        if r != max_state && r == c {
            assert(0 <= n - 1 < n && r == spec_effect_category(entries[n - 1].1.effect_category));
        }
    }
}

/// The highest state an item supports is the least one that covers its
/// starting maximum, every effect category up to `Overload` among its dogma
/// effects (an `Online` effect raises a `Passive` maximum to `Online`), and
/// `Active` when it needs capacitor: it is at least each of them and equal
/// to one of them.
pub proof fn lemma_max_state_covers_effect_categories(
    entries: Seq<(i32, DogmaEffect)>,
    max_state: EffectCategory,
    has_capacitor_need: bool,
)
    ensures
        final_max_state(entries, max_state, has_capacitor_need).level() >= max_state.level(),
        has_capacitor_need ==> final_max_state(entries, max_state, has_capacitor_need).level()
            >= EffectCategory::Active.level(),
        forall|i: int|
            0 <= i < entries.len() && spec_effect_category(entries[i].1.effect_category).level()
                <= EffectCategory::Overload.level() ==> final_max_state(
                entries,
                max_state,
                has_capacitor_need,
            ).level() >= (#[trigger] spec_effect_category(entries[i].1.effect_category)).level(),
        final_max_state(entries, max_state, has_capacitor_need) == max_state || (has_capacitor_need
            && final_max_state(entries, max_state, has_capacitor_need) == EffectCategory::Active)
            || exists|i: int|
            0 <= i < entries.len() && final_max_state(entries, max_state, has_capacitor_need)
                == #[trigger] spec_effect_category(entries[i].1.effect_category) && final_max_state(
                entries,
                max_state,
                has_capacitor_need,
            ).level() <= EffectCategory::Overload.level(),
{
    lemma_raised_max_state_bounds(entries, entries.len() as int, max_state);
}

/// The highest state after collection: an item that needs capacitor can
/// at least be activated.
pub open spec fn final_max_state(
    entries: Seq<(i32, DogmaEffect)>,
    max_state: EffectCategory,
    has_capacitor_need: bool,
) -> EffectCategory {
    let m = raised_max_state(entries, entries.len() as int, max_state);
    if has_capacitor_need && m.level() < EffectCategory::Active.level() {
        EffectCategory::Active
    } else {
        m
    }
}

/// The state after collection: lowered to the highest supported state.
pub open spec fn final_state(state: EffectCategory, max_state: EffectCategory) -> EffectCategory {
    if state.level() > max_state.level() {
        max_state
    } else {
        state
    }
}

/// Collects the effects of an item (found on `origin`) from its dogma
/// effects, given in the order of the item's type as pairs of effect ID and
/// effect definition. Effects with modifiers are appended to `effects`; the
/// IDs of effects without modifiers are appended to the holder's list. The
/// holder's highest supported state is raised by the effect categories, and
/// its state is lowered to it.
pub fn collect_effects(
    entries: &Vec<(i32, DogmaEffect)>,
    origin: Object,
    has_charge: bool,
    has_capacitor_need: bool,
    holder: &mut EffectHolder,
    effects: &mut Vec<Pass2Effect>,
)
    requires
        entries_well_formed(entries@, origin, has_charge),
    ensures
        final(effects)@ == old(effects)@ + collected_effects(
            entries@,
            entries@.len() as int,
            origin,
            has_charge,
        ),
        final(holder).effects@ == old(holder).effects@ + plain_effect_ids(
            entries@,
            entries@.len() as int,
        ),
        final(holder).max_state == final_max_state(
            entries@,
            old(holder).max_state,
            has_capacitor_need,
        ),
        final(holder).state == final_state(old(holder).state, final(holder).max_state),
        old(holder).state.level() <= final(holder).max_state.level() ==> final(holder).state
            == old(holder).state,
        old(holder).state.level() > final(holder).max_state.level() ==> final(holder).state
            == final(holder).max_state,
        final(holder).state.level() <= final(holder).max_state.level(),
        final(holder).max_state.level() >= old(holder).max_state.level(),
        has_capacitor_need ==> final(holder).max_state.level() >= EffectCategory::Active.level(),
        forall|i: int|
            0 <= i < entries@.len() && spec_effect_category(entries@[i].1.effect_category).level()
                <= EffectCategory::Overload.level() ==> final(holder).max_state.level() >= (
            #[trigger] spec_effect_category(entries@[i].1.effect_category)).level(),
{
    let ghost effects0 = effects@;
    let ghost plain0 = holder.effects@;
    let ghost max0 = holder.max_state;
    let ghost state0 = holder.state;
    let mut i: usize = 0;
    while i < entries.len()
        invariant
            i <= entries@.len(),
            entries_well_formed(entries@, origin, has_charge),
            effects@ == effects0 + collected_effects(entries@, i as int, origin, has_charge),
            holder.effects@ == plain0 + plain_effect_ids(entries@, i as int),
            holder.max_state == raised_max_state(entries@, i as int, max0),
            holder.state == state0,
        decreases entries@.len() - i,
    {
        let effect_id = entries[i].0;
        let dogma_effect = &entries[i].1;
        assert(dogma_effect_well_formed(entries@[i as int].1, origin, has_charge));
        let category = get_effect_category(dogma_effect.effect_category);
        if category.rank() > holder.max_state.rank() && category.rank() <= 3 {
            holder.max_state = category;
        }
        let ghost before = effects@;
        if dogma_effect.modifier_info.len() > 0 {
            let mods = &dogma_effect.modifier_info;
            let mut j: usize = 0;
            while j < mods.len()
                invariant
                    j <= mods@.len(),
                    i < entries@.len(),
                    mods@ == entries@[i as int].1.modifier_info@,
                    dogma_effect_well_formed(entries@[i as int].1, origin, has_charge),
                    category == spec_effect_category(entries@[i as int].1.effect_category),
                    effects@ == before + modifier_effects(mods@, j as int, category, origin, has_charge),
                decreases mods@.len() - j,
            {
                let modifier = mods[j];
                assert(modifier_well_formed(mods@[j as int], origin, has_charge));
                let effect_modifier = get_modifier_func(
                    modifier.func,
                    modifier.skill_type_id,
                    modifier.group_id,
                );
                match effect_modifier {
                    None => {},
                    Some(m) => {
                        let operator = get_effect_operator(modifier.operation.unwrap());
                        match operator {
                            None => {},
                            Some(op) => {
                                let skip = match origin {
                                    Object::Item(_) => {
                                        match modifier.domain {
                                            DogmaEffectModifierInfoDomain::OtherID => !has_charge,
                                            _ => false,
                                        }
                                    },
                                    _ => false,
                                };
                                if !skip {
                                    let target = get_target_object(modifier.domain, origin);
                                    effects.push(
                                        Pass2Effect {
                                            modifier: m,
                                            operator: op,
                                            source: origin,
                                            source_category: category,
                                            source_attribute_id: modifier.modifying_attribute_id.unwrap(),
                                            target,
                                            target_attribute_id: modifier.modified_attribute_id.unwrap(),
                                        },
                                    );
                                }
                            },
                        }
                    },
                }
                j = j + 1;
            }
        } else {
            holder.effects.push(effect_id);
        }
        proof {
            assert(effects@ == effects0 + collected_effects(entries@, i as int, origin, has_charge)
                + dogma_effect_effects(entries@[i as int].1, origin, has_charge));
            assert(collected_effects(entries@, i + 1, origin, has_charge) == collected_effects(
                entries@,
                i as int,
                origin,
                has_charge,
            ) + dogma_effect_effects(entries@[i as int].1, origin, has_charge));
            assert(effects@ =~= effects0 + collected_effects(entries@, i + 1, origin, has_charge));
            assert(holder.effects@ =~= plain0 + plain_effect_ids(entries@, i + 1));
        }
        i = i + 1;
    }
    proof {
        lemma_raised_max_state_grows(entries@, entries@.len() as int, max0);
        lemma_max_state_covers_effect_categories(entries@, max0, has_capacitor_need);
    }
    if has_capacitor_need && holder.max_state.rank() < 2 {
        holder.max_state = EffectCategory::Active;
    }
    if holder.state.rank() > holder.max_state.rank() {
        holder.state = holder.max_state;
    }
}

/// What effect registration needs to know of an item of the ship.
#[derive(Debug, Clone)]
pub struct TargetInfo {
    /// The item's type ID.
    pub type_id: i32,
    /// The group of the item's type.
    pub group_id: i32,
    /// For each required-skill attribute, in the order of
    /// `attribute_skills()`, the skill it names: `Some(id)` when the item
    /// has the attribute and its base value is exactly the type ID `id`.
    pub required_skills: Vec<Option<i32>>,
}

/// A module (or drone or fighter) of the ship, with its charge.
#[derive(Debug, Clone)]
pub struct ModuleInfo {
    pub item: TargetInfo,
    pub slot_type: SlotType,
    pub charge: Option<TargetInfo>,
}

/// The items of a ship, as effect registration sees them. Positions in
/// `modules`, `implants`, `boosters` and `skills` are the indices that
/// `Object` handles carry.
#[derive(Debug, Clone)]
pub struct ShipLayout {
    pub hull: TargetInfo,
    pub modules: Vec<ModuleInfo>,
    pub implants: Vec<TargetInfo>,
    /// Type IDs of the boosters.
    pub boosters: Vec<i32>,
    /// Type IDs of the skills.
    pub skills: Vec<i32>,
}

/// Whether the `k`-th required-skill attribute of `t` names `skill`.
pub open spec fn skill_matches(t: TargetInfo, k: int, skill: i32) -> bool {
    0 <= k < t.required_skills@.len() && t.required_skills@[k] == Some(skill)
}

/// Drones and fighters: the items that are launched rather than fitted.
pub open spec fn is_launched(slot_type: SlotType) -> bool {
    slot_type is DroneBay || slot_type is Fighter
}

impl ShipLayout {
    /// Whether the type of `source` can be looked up in the layout.
    pub open spec fn source_defined(self, source: Object) -> bool {
        match source {
            Object::Item(i) => i < self.modules@.len(),
            Object::Implant(i) => i < self.implants@.len(),
            Object::Booster(i) => i < self.boosters@.len(),
            Object::Charge(i) => i < self.modules@.len() && self.modules@[i as int].charge is Some,
            Object::Skill(i) => i < self.skills@.len(),
            _ => true,
        }
    }

    /// The type ID of `source`; `None` for the structure and the target,
    /// which are not modelled.
    pub open spec fn spec_source_type_id(self, source: Object) -> Option<i32> {
        match source {
            Object::Ship => Some(self.hull.type_id),
            Object::Item(i) => Some(self.modules@[i as int].item.type_id),
            Object::Implant(i) => Some(self.implants@[i as int].type_id),
            Object::Booster(i) => Some(self.boosters@[i as int]),
            Object::Charge(i) => Some(self.modules@[i as int].charge.unwrap().type_id),
            Object::Skill(i) => Some(self.skills@[i as int]),
            Object::Character => Some(CHARACTER_TYPE_ID),
            Object::Structure => None,
            Object::Target => None,
        }
    }

    /// The type ID of the source of an effect; `None` for the structure and
    /// the target, whose effects are not registered.
    pub fn source_type_id(&self, source: Object) -> (res: Option<i32>)
        requires
            self.source_defined(source),
        ensures
            res == self.spec_source_type_id(source),
    {
        match source {
            Object::Ship => Some(self.hull.type_id),
            Object::Item(i) => Some(self.modules[i].item.type_id),
            Object::Implant(i) => Some(self.implants[i].type_id),
            Object::Booster(i) => Some(self.boosters[i]),
            Object::Charge(i) => match &self.modules[i].charge {
                Some(c) => Some(c.type_id),
                None => None,
            },
            Object::Skill(i) => Some(self.skills[i]),
            Object::Character => Some(CHARACTER_TYPE_ID),
            Object::Structure => None,
            Object::Target => None,
        }
    }
}

/// The targets a location modifier reaches on module `i`: the module, then
/// its charge.
pub open spec fn location_module_targets(mods: Seq<ModuleInfo>, i: int) -> Seq<Object> {
    seq![Object::Item(i as usize)] + if mods[i].charge is Some {
        seq![Object::Charge(i as usize)]
    } else {
        seq![]
    }
}

pub open spec fn location_targets_upto(mods: Seq<ModuleInfo>, n: int) -> Seq<Object>
    decreases n,
{
    if n <= 0 {
        seq![]
    } else {
        location_targets_upto(mods, n - 1) + location_module_targets(mods, n - 1)
    }
}

/// The targets a group modifier for `group_id` reaches on module `i`.
pub open spec fn group_module_targets(mods: Seq<ModuleInfo>, i: int, group_id: i32) -> Seq<Object> {
    (if mods[i].item.group_id == group_id {
        seq![Object::Item(i as usize)]
    } else {
        seq![]
    }) + match mods[i].charge {
        Some(c) => if c.group_id == group_id {
            seq![Object::Charge(i as usize)]
        } else {
            seq![]
        },
        None => seq![],
    }
}

pub open spec fn group_targets_upto(mods: Seq<ModuleInfo>, n: int, group_id: i32) -> Seq<Object>
    decreases n,
{
    if n <= 0 {
        seq![]
    } else {
        group_targets_upto(mods, n - 1, group_id) + group_module_targets(mods, n - 1, group_id)
    }
}

/// The targets a skill modifier reaches on module `i` through the `k`-th
/// required-skill attribute. An owner modifier reaches only launched items
/// (drones, fighters) and charges, never a fitted module.
pub open spec fn skill_module_targets(
    mods: Seq<ModuleInfo>,
    i: int,
    k: int,
    skill: i32,
    owner: bool,
) -> Seq<Object> {
    (if (!owner || is_launched(mods[i].slot_type)) && skill_matches(mods[i].item, k, skill) {
        seq![Object::Item(i as usize)]
    } else {
        seq![]
    }) + match mods[i].charge {
        Some(c) => if skill_matches(c, k, skill) {
            seq![Object::Charge(i as usize)]
        } else {
            seq![]
        },
        None => seq![],
    }
}

pub open spec fn skill_modules_upto(
    mods: Seq<ModuleInfo>,
    n: int,
    k: int,
    skill: i32,
    owner: bool,
) -> Seq<Object>
    decreases n,
{
    if n <= 0 {
        seq![]
    } else {
        skill_modules_upto(mods, n - 1, k, skill, owner) + skill_module_targets(
            mods,
            n - 1,
            k,
            skill,
            owner,
        )
    }
}

pub open spec fn skill_implants_upto(implants: Seq<TargetInfo>, n: int, k: int, skill: i32) -> Seq<
    Object,
>
    decreases n,
{
    if n <= 0 {
        seq![]
    } else {
        skill_implants_upto(implants, n - 1, k, skill) + if skill_matches(
            implants[n - 1],
            k,
            skill,
        ) {
            seq![Object::Implant((n - 1) as usize)]
        } else {
            seq![]
        }
    }
}

/// The targets a skill modifier reaches through the `k`-th required-skill
/// attribute: a location modifier reaches the hull, the modules with their
/// charges and the implants; an owner modifier only launched items and
/// charges.
pub open spec fn skill_attribute_targets(layout: ShipLayout, k: int, skill: i32, owner: bool) -> Seq<
    Object,
> {
    if owner {
        skill_modules_upto(layout.modules@, layout.modules@.len() as int, k, skill, true)
    } else {
        (if skill_matches(layout.hull, k, skill) {
            seq![Object::Ship]
        } else {
            seq![]
        }) + skill_modules_upto(layout.modules@, layout.modules@.len() as int, k, skill, false)
            + skill_implants_upto(layout.implants@, layout.implants@.len() as int, k, skill)
    }
}

pub open spec fn skill_targets_upto(layout: ShipLayout, n: int, skill: i32, owner: bool) -> Seq<
    Object,
>
    decreases n,
{
    if n <= 0 {
        seq![]
    } else {
        skill_targets_upto(layout, n - 1, skill, owner) + skill_attribute_targets(
            layout,
            n - 1,
            skill,
            owner,
        )
    }
}

/// The skill a skill modifier names: -1 stands for the source's own type.
pub open spec fn resolved_skill(skill: i32, source_type_id: i32) -> i32 {
    if skill == -1 {
        source_type_id
    } else {
        skill
    }
}

/// The objects, in registration order and with repetitions, on which an
/// effect whose source has type `source_type_id` is registered.
pub open spec fn spec_effect_targets(layout: ShipLayout, effect: Pass2Effect, source_type_id: i32) -> Seq<
    Object,
> {
    let n = layout.modules@.len() as int;
    let attrs = spec_attribute_skills().len() as int;
    match effect.modifier {
        Modifier::ItemModifier => seq![effect.target],
        Modifier::LocationModifier => seq![Object::Ship] + location_targets_upto(layout.modules@, n),
        Modifier::LocationGroupModifier(group_id) => (if layout.hull.group_id == group_id {
            seq![Object::Ship]
        } else {
            seq![]
        }) + group_targets_upto(layout.modules@, n, group_id),
        Modifier::LocationRequiredSkillModifier(skill) => skill_targets_upto(
            layout,
            attrs,
            resolved_skill(skill, source_type_id),
            false,
        ),
        Modifier::OwnerRequiredSkillModifier(skill) => skill_targets_upto(
            layout,
            attrs,
            resolved_skill(skill, source_type_id),
            true,
        ),
    }
}

fn push_location_targets(mods: &Vec<ModuleInfo>, out: &mut Vec<Object>)
    ensures
        final(out)@ == old(out)@ + location_targets_upto(mods@, mods@.len() as int),
{
    let ghost out0 = out@;
    let mut i: usize = 0;
    while i < mods.len()
        invariant
            i <= mods@.len(),
            out@ == out0 + location_targets_upto(mods@, i as int),
        decreases mods@.len() - i,
    {
        out.push(Object::Item(i));
        if mods[i].charge.is_some() {
            out.push(Object::Charge(i));
        }
        assert(out@ =~= out0 + location_targets_upto(mods@, i + 1));
        i = i + 1;
    }
}

fn push_group_targets(mods: &Vec<ModuleInfo>, group_id: i32, out: &mut Vec<Object>)
    ensures
        final(out)@ == old(out)@ + group_targets_upto(mods@, mods@.len() as int, group_id),
{
    let ghost out0 = out@;
    let mut i: usize = 0;
    while i < mods.len()
        invariant
            i <= mods@.len(),
            out@ == out0 + group_targets_upto(mods@, i as int, group_id),
        decreases mods@.len() - i,
    {
        if mods[i].item.group_id == group_id {
            out.push(Object::Item(i));
        }
        match &mods[i].charge {
            Some(c) => {
                if c.group_id == group_id {
                    out.push(Object::Charge(i));
                }
            },
            None => {},
        }
        assert(out@ =~= out0 + group_targets_upto(mods@, i + 1, group_id));
        i = i + 1;
    }
}

fn has_skill(t: &TargetInfo, k: usize, skill: i32) -> (res: bool)
    ensures
        res == skill_matches(*t, k as int, skill),
{
    if k < t.required_skills.len() {
        match t.required_skills[k] {
            Some(s) => s == skill,
            None => false,
        }
    } else {
        false
    }
}

fn push_skill_module_targets(
    mods: &Vec<ModuleInfo>,
    k: usize,
    skill: i32,
    owner: bool,
    out: &mut Vec<Object>,
)
    ensures
        final(out)@ == old(out)@ + skill_modules_upto(
            mods@,
            mods@.len() as int,
            k as int,
            skill,
            owner,
        ),
{
    let ghost out0 = out@;
    let mut i: usize = 0;
    while i < mods.len()
        invariant
            i <= mods@.len(),
            out@ == out0 + skill_modules_upto(mods@, i as int, k as int, skill, owner),
        decreases mods@.len() - i,
    {
        let launched = match mods[i].slot_type {
            SlotType::DroneBay { .. } | SlotType::Fighter { .. } => true,
            _ => false,
        };
        if (!owner || launched) && has_skill(&mods[i].item, k, skill) {
            out.push(Object::Item(i));
        }
        match &mods[i].charge {
            Some(c) => {
                if has_skill(c, k, skill) {
                    out.push(Object::Charge(i));
                }
            },
            None => {},
        }
        assert(out@ =~= out0 + skill_modules_upto(mods@, i + 1, k as int, skill, owner));
        i = i + 1;
    }
}

fn push_skill_implant_targets(
    implants: &Vec<TargetInfo>,
    k: usize,
    skill: i32,
    out: &mut Vec<Object>,
)
    ensures
        final(out)@ == old(out)@ + skill_implants_upto(
            implants@,
            implants@.len() as int,
            k as int,
            skill,
        ),
{
    let ghost out0 = out@;
    let mut i: usize = 0;
    while i < implants.len()
        invariant
            i <= implants@.len(),
            out@ == out0 + skill_implants_upto(implants@, i as int, k as int, skill),
        decreases implants@.len() - i,
    {
        if has_skill(&implants[i], k, skill) {
            out.push(Object::Implant(i));
        }
        assert(out@ =~= out0 + skill_implants_upto(implants@, i + 1, k as int, skill));
        i = i + 1;
    }
}

/// The objects on which `effect` is registered, in registration order and
/// with repetitions: an item modifier reaches its target; a location
/// modifier the hull, every module and every charge; a group modifier those
/// of them in the group; a location skill modifier, once per matching
/// required-skill attribute, the hull, modules, charges and implants that
/// require the skill; an owner skill modifier only the drones, fighters and
/// charges that require it. A skill of -1 stands for the source's type.
pub fn effect_targets(layout: &ShipLayout, effect: &Pass2Effect, source_type_id: i32) -> (res: Vec<
    Object,
>)
    ensures
        res@ == spec_effect_targets(*layout, *effect, source_type_id),
{
    let mut out: Vec<Object> = Vec::new();
    match effect.modifier {
        Modifier::ItemModifier => {
            out.push(effect.target);
            assert(out@ =~= seq![effect.target]);
        },
        Modifier::LocationModifier => {
            out.push(Object::Ship);
            push_location_targets(&layout.modules, &mut out);
        },
        Modifier::LocationGroupModifier(group_id) => {
            if layout.hull.group_id == group_id {
                out.push(Object::Ship);
            }
            push_group_targets(&layout.modules, group_id, &mut out);
            assert(out@ =~= spec_effect_targets(*layout, *effect, source_type_id));
        },
        Modifier::LocationRequiredSkillModifier(skill) | Modifier::OwnerRequiredSkillModifier(
            skill,
        ) => {
            let owner = match effect.modifier {
                Modifier::OwnerRequiredSkillModifier(_) => true,
                _ => false,
            };
            let skill = if skill == -1 {
                source_type_id
            } else {
                skill
            };
            let attrs = attribute_skills();
            let mut k: usize = 0;
            while k < attrs.len()
                invariant
                    k <= attrs@.len(),
                    attrs@ == spec_attribute_skills(),
                    out@ == skill_targets_upto(*layout, k as int, skill, owner),
                decreases attrs@.len() - k,
            {
                let ghost before = out@;
                if !owner {
                    if has_skill(&layout.hull, k, skill) {
                        out.push(Object::Ship);
                    }
                }
                push_skill_module_targets(&layout.modules, k, skill, owner, &mut out);
                if !owner {
                    push_skill_implant_targets(&layout.implants, k, skill, &mut out);
                }
                assert(out@ =~= before + skill_attribute_targets(*layout, k as int, skill, owner));
                k = k + 1;
            }
        },
    }
    out
}

/// Whether `o` is a launched item (drone or fighter) or a charge of the
/// layout's modules.
pub open spec fn is_launched_or_charge(mods: Seq<ModuleInfo>, o: Object) -> bool {
    match o {
        Object::Item(i) => i < mods.len() && is_launched(mods[i as int].slot_type),
        Object::Charge(i) => i < mods.len() && mods[i as int].charge is Some,
        _ => false,
    }
}

proof fn lemma_owner_module_targets(mods: Seq<ModuleInfo>, n: int, k: int, skill: i32)
    requires
        n <= mods.len() <= usize::MAX,
    ensures
        forall|j: int|
            0 <= j < skill_modules_upto(mods, n, k, skill, true).len() ==> is_launched_or_charge(
                mods,
                #[trigger] skill_modules_upto(mods, n, k, skill, true)[j],
            ),
    decreases n,
{
    if n > 0 {
        lemma_owner_module_targets(mods, n - 1, k, skill);
        let prev = skill_modules_upto(mods, n - 1, k, skill, true);
        let last = skill_module_targets(mods, n - 1, k, skill, true);
        assert(skill_modules_upto(mods, n, k, skill, true) == prev + last);
        assert forall|j: int| 0 <= j < (prev + last).len() implies is_launched_or_charge(
            mods,
            #[trigger] (prev + last)[j],
        ) by {
            if j < prev.len() {
                assert((prev + last)[j] == prev[j]);
            } else {
                assert((prev + last)[j] == last[j - prev.len()]);
            }
        }
    }
}

proof fn lemma_owner_targets_upto(layout: ShipLayout, n: int, skill: i32)
    requires
        layout.modules@.len() <= usize::MAX,
    ensures
        forall|j: int|
            0 <= j < skill_targets_upto(layout, n, skill, true).len() ==> is_launched_or_charge(
                layout.modules@,
                #[trigger] skill_targets_upto(layout, n, skill, true)[j],
            ),
    decreases n,
{
    if n > 0 {
        lemma_owner_targets_upto(layout, n - 1, skill);
        lemma_owner_module_targets(
            layout.modules@,
            layout.modules@.len() as int,
            n - 1,
            skill,
        );
        let prev = skill_targets_upto(layout, n - 1, skill, true);
        let last = skill_attribute_targets(layout, n - 1, skill, true);
        assert forall|j: int| 0 <= j < (prev + last).len() implies is_launched_or_charge(
            layout.modules@,
            #[trigger] (prev + last)[j],
        ) by {
            if j < prev.len() {
                assert((prev + last)[j] == prev[j]);
            } else {
                assert((prev + last)[j] == last[j - prev.len()]);
            }
        }
    }
}

/// An owner-required-skill modifier is registered only on drones, fighters
/// and charges: never on a fitted module, the hull or an implant.
pub proof fn lemma_owner_modifier_skips_fitted_modules(
    layout: ShipLayout,
    effect: Pass2Effect,
    source_type_id: i32,
)
    requires
        layout.modules@.len() <= usize::MAX,
        effect.modifier is OwnerRequiredSkillModifier,
    ensures
        forall|j: int|
            0 <= j < spec_effect_targets(layout, effect, source_type_id).len()
                ==> is_launched_or_charge(
                layout.modules@,
                #[trigger] spec_effect_targets(layout, effect, source_type_id)[j],
            ),
{
    let skill = resolved_skill(effect.modifier->OwnerRequiredSkillModifier_0, source_type_id);
    lemma_owner_targets_upto(layout, spec_attribute_skills().len() as int, skill);
}

proof fn lemma_modifier_effects_skip_absent_charge(
    mods: Seq<DogmaEffectModifierInfo>,
    n: int,
    category: EffectCategory,
    index: usize,
)
    ensures
        forall|j: int|
            0 <= j < modifier_effects(mods, n, category, Object::Item(index), false).len()
                ==> (#[trigger] modifier_effects(mods, n, category, Object::Item(index), false)[j]).target
                != Object::Charge(index),
    decreases n,
{
    if n > 0 {
        lemma_modifier_effects_skip_absent_charge(mods, n - 1, category, index);
    }
}

proof fn lemma_collected_effects_skip_absent_charge(
    entries: Seq<(i32, DogmaEffect)>,
    n: int,
    index: usize,
)
    ensures
        forall|j: int|
            0 <= j < collected_effects(entries, n, Object::Item(index), false).len()
                ==> (#[trigger] collected_effects(entries, n, Object::Item(index), false)[j]).target
                != Object::Charge(index),
    decreases n,
{
    if n > 0 {
        lemma_collected_effects_skip_absent_charge(entries, n - 1, index);
        let d = entries[n - 1].1;
        lemma_modifier_effects_skip_absent_charge(
            d.modifier_info@,
            d.modifier_info@.len() as int,
            spec_effect_category(d.effect_category),
            index,
        );
        let prev = collected_effects(entries, n - 1, Object::Item(index), false);
        let last = dogma_effect_effects(d, Object::Item(index), false);
        assert forall|j: int| 0 <= j < (prev + last).len() implies (#[trigger] (prev + last)[j]).target
            != Object::Charge(index) by {
            if j < prev.len() {
                assert((prev + last)[j] == prev[j]);
            } else {
                assert((prev + last)[j] == last[j - prev.len()]);
            }
        }
    }
}

/// A module without a charge has no "other" item: none of the effects
/// collected from it targets the charge slot of that module.
pub proof fn lemma_chargeless_module_targets_no_charge(entries: Seq<(i32, DogmaEffect)>, index: usize)
    ensures
        forall|j: int|
            0 <= j < collected_effects(entries, entries.len() as int, Object::Item(index), false).len()
                ==> (#[trigger] collected_effects(
                entries,
                entries.len() as int,
                Object::Item(index),
                false,
            )[j]).target != Object::Charge(index),
{
    lemma_collected_effects_skip_absent_charge(entries, entries.len() as int, index);
}

/// Whether the `k`-th required-skill attribute of the ship object `o` names
/// `skill`: the hull, a module, drone or fighter, the charge loaded in one,
/// or an implant.
pub open spec fn object_requires_skill(layout: ShipLayout, o: Object, k: int, skill: i32) -> bool {
    match o {
        Object::Ship => skill_matches(layout.hull, k, skill),
        Object::Item(i) => i < layout.modules@.len() && skill_matches(
            layout.modules@[i as int].item,
            k,
            skill,
        ),
        Object::Charge(i) => i < layout.modules@.len() && match layout.modules@[i as int].charge {
            Some(c) => skill_matches(c, k, skill),
            None => false,
        },
        Object::Implant(i) => i < layout.implants@.len() && skill_matches(
            layout.implants@[i as int],
            k,
            skill,
        ),
        _ => false,
    }
}

/// The objects an owner-required-skill modifier may reach: drones, fighters
/// and charges.
pub open spec fn owner_reachable(layout: ShipLayout, o: Object) -> bool {
    match o {
        Object::Item(i) => i < layout.modules@.len() && (layout.modules@[i as int].slot_type is DroneBay
            || layout.modules@[i as int].slot_type is Fighter),
        Object::Charge(_) => true,
        _ => false,
    }
}

/// What module `i` contributes to the targets of a skill modifier, seen
/// object by object.
spec fn module_reaches(mods: Seq<ModuleInfo>, n: int, k: int, skill: i32, owner: bool, o: Object) -> bool {
    match o {
        Object::Item(i) => i < n && (!owner || mods[i as int].slot_type is DroneBay
            || mods[i as int].slot_type is Fighter) && skill_matches(mods[i as int].item, k, skill),
        Object::Charge(i) => i < n && match mods[i as int].charge {
            Some(c) => skill_matches(c, k, skill),
            None => false,
        },
        _ => false,
    }
}

proof fn lemma_skill_modules_contains(
    mods: Seq<ModuleInfo>,
    n: int,
    k: int,
    skill: i32,
    owner: bool,
    o: Object,
)
    requires
        0 <= n <= mods.len() <= usize::MAX,
    ensures
        skill_modules_upto(mods, n, k, skill, owner).contains(o) <==> module_reaches(
            mods,
            n,
            k,
            skill,
            owner,
            o,
        ),
    decreases n,
{
    broadcast use vstd::seq_lib::lemma_seq_concat_contains_all_elements;
    broadcast use vstd::seq_lib::lemma_seq_contains_after_push;
    broadcast use vstd::seq_lib::lemma_seq_empty_contains_nothing;

    if n > 0 {
        lemma_skill_modules_contains(mods, n - 1, k, skill, owner, o);
        let i = n - 1;
        let item_part = if (!owner || is_launched(mods[i].slot_type)) && skill_matches(
            mods[i].item,
            k,
            skill,
        ) {
            seq![Object::Item(i as usize)]
        } else {
            seq![]
        };
        let charge_part = match mods[i].charge {
            Some(c) => if skill_matches(c, k, skill) {
                seq![Object::Charge(i as usize)]
            } else {
                seq![]
            },
            None => seq![],
        };
        assert(skill_module_targets(mods, i, k, skill, owner) == item_part + charge_part);
        assert(item_part.contains(o) <==> (o == Object::Item(i as usize) && (!owner || is_launched(
            mods[i].slot_type,
        )) && skill_matches(mods[i].item, k, skill)));
        assert(charge_part.contains(o) <==> (o == Object::Charge(i as usize) && match mods[i].charge {
            Some(c) => skill_matches(c, k, skill),
            None => false,
        }));
    }
}

proof fn lemma_skill_implants_contains(implants: Seq<TargetInfo>, n: int, k: int, skill: i32, o: Object)
    requires
        0 <= n <= implants.len() <= usize::MAX,
    ensures
        skill_implants_upto(implants, n, k, skill).contains(o) <==> match o {
            Object::Implant(i) => i < n && skill_matches(implants[i as int], k, skill),
            _ => false,
        },
    decreases n,
{
    broadcast use vstd::seq_lib::lemma_seq_concat_contains_all_elements;
    broadcast use vstd::seq_lib::lemma_seq_contains_after_push;
    broadcast use vstd::seq_lib::lemma_seq_empty_contains_nothing;

    if n > 0 {
        lemma_skill_implants_contains(implants, n - 1, k, skill, o);
    }
}

proof fn lemma_skill_attribute_contains(layout: ShipLayout, k: int, skill: i32, owner: bool, o: Object)
    requires
        layout.modules@.len() <= usize::MAX,
        layout.implants@.len() <= usize::MAX,
    ensures
        skill_attribute_targets(layout, k, skill, owner).contains(o) <==> object_requires_skill(
            layout,
            o,
            k,
            skill,
        ) && (!owner || owner_reachable(layout, o)),
{
    broadcast use vstd::seq_lib::lemma_seq_concat_contains_all_elements;
    broadcast use vstd::seq_lib::lemma_seq_contains_after_push;
    broadcast use vstd::seq_lib::lemma_seq_empty_contains_nothing;

    lemma_skill_modules_contains(
        layout.modules@,
        layout.modules@.len() as int,
        k,
        skill,
        owner,
        o,
    );
    lemma_skill_implants_contains(layout.implants@, layout.implants@.len() as int, k, skill, o);
}

proof fn lemma_skill_targets_contains(layout: ShipLayout, n: int, skill: i32, owner: bool, o: Object)
    requires
        layout.modules@.len() <= usize::MAX,
        layout.implants@.len() <= usize::MAX,
    ensures
        skill_targets_upto(layout, n, skill, owner).contains(o) <==> exists|k: int|
            0 <= k < n && #[trigger] object_requires_skill(layout, o, k, skill) && (!owner
                || owner_reachable(layout, o)),
    decreases n,
{
    broadcast use vstd::seq_lib::lemma_seq_concat_contains_all_elements;
    broadcast use vstd::seq_lib::lemma_seq_empty_contains_nothing;

    if n > 0 {
        lemma_skill_targets_contains(layout, n - 1, skill, owner, o);
        lemma_skill_attribute_contains(layout, n - 1, skill, owner, o);
    }
}

/// A location-required-skill modifier reaches exactly the hull, modules,
/// drones, fighters, charges and implants one of whose required-skill
/// attributes names the skill (-1 standing for the source's type); an
/// owner-required-skill modifier exactly the drones, fighters and charges
/// among them.
pub proof fn lemma_skill_modifier_targets(
    layout: ShipLayout,
    effect: Pass2Effect,
    source_type_id: i32,
    o: Object,
)
    requires
        layout.modules@.len() <= usize::MAX,
        layout.implants@.len() <= usize::MAX,
    ensures
        effect.modifier matches Modifier::LocationRequiredSkillModifier(skill) ==> (spec_effect_targets(
            layout,
            effect,
            source_type_id,
        ).contains(o) <==> exists|k: int|
            0 <= k < spec_attribute_skills().len() && #[trigger] object_requires_skill(
                layout,
                o,
                k,
                resolved_skill(skill, source_type_id),
            )),
        effect.modifier matches Modifier::OwnerRequiredSkillModifier(skill) ==> (spec_effect_targets(
            layout,
            effect,
            source_type_id,
        ).contains(o) <==> owner_reachable(layout, o) && exists|k: int|
            0 <= k < spec_attribute_skills().len() && #[trigger] object_requires_skill(
                layout,
                o,
                k,
                resolved_skill(skill, source_type_id),
            )),
{
    let n = spec_attribute_skills().len() as int;
    match effect.modifier {
        Modifier::LocationRequiredSkillModifier(skill) => {
            lemma_skill_targets_contains(layout, n, resolved_skill(skill, source_type_id), false, o);
        },
        Modifier::OwnerRequiredSkillModifier(skill) => {
            lemma_skill_targets_contains(layout, n, resolved_skill(skill, source_type_id), true, o);
        },
        _ => {},
    }
}

proof fn lemma_location_targets_contents(mods: Seq<ModuleInfo>, n: int, o: Object)
    requires
        0 <= n <= mods.len() <= usize::MAX,
    ensures
        location_targets_upto(mods, n).contains(o) <==> match o {
            Object::Item(i) => i < n,
            Object::Charge(i) => i < n && mods[i as int].charge is Some,
            _ => false,
        },
    decreases n,
{
    broadcast use vstd::seq_lib::lemma_seq_concat_contains_all_elements;
    broadcast use vstd::seq_lib::lemma_seq_contains_after_push;
    broadcast use vstd::seq_lib::lemma_seq_empty_contains_nothing;

    if n > 0 {
        lemma_location_targets_contents(mods, n - 1, o);
    }
}

proof fn lemma_group_targets_contents(mods: Seq<ModuleInfo>, n: int, group_id: i32, o: Object)
    requires
        0 <= n <= mods.len() <= usize::MAX,
    ensures
        group_targets_upto(mods, n, group_id).contains(o) <==> match o {
            Object::Item(i) => i < n && mods[i as int].item.group_id == group_id,
            Object::Charge(i) => i < n && match mods[i as int].charge {
                Some(c) => c.group_id == group_id,
                None => false,
            },
            _ => false,
        },
    decreases n,
{
    broadcast use vstd::seq_lib::lemma_seq_concat_contains_all_elements;
    broadcast use vstd::seq_lib::lemma_seq_contains_after_push;
    broadcast use vstd::seq_lib::lemma_seq_empty_contains_nothing;

    if n > 0 {
        lemma_group_targets_contents(mods, n - 1, group_id, o);
        let i = n - 1;
        let item_part = if mods[i].item.group_id == group_id {
            seq![Object::Item(i as usize)]
        } else {
            seq![]
        };
        let charge_part = match mods[i].charge {
            Some(c) => if c.group_id == group_id {
                seq![Object::Charge(i as usize)]
            } else {
                seq![]
            },
            None => seq![],
        };
        assert(group_module_targets(mods, i, group_id) == item_part + charge_part);
    }
}

/// Location and group modifiers: an item modifier is registered on its
/// target alone; a location modifier on the hull, every module, drone and
/// fighter and every loaded charge, each once; a location group modifier
/// on exactly those of them (the hull included) whose group is the
/// modifier's.
pub proof fn lemma_location_modifier_targets(
    layout: ShipLayout,
    effect: Pass2Effect,
    source_type_id: i32,
    o: Object,
)
    requires
        layout.modules@.len() <= usize::MAX,
    ensures
        effect.modifier is ItemModifier ==> spec_effect_targets(layout, effect, source_type_id)
            == seq![effect.target],
        effect.modifier is LocationModifier ==> (spec_effect_targets(
            layout,
            effect,
            source_type_id,
        ).contains(o) <==> match o {
            Object::Ship => true,
            Object::Item(i) => i < layout.modules@.len(),
            Object::Charge(i) => i < layout.modules@.len() && layout.modules@[i as int].charge is Some,
            _ => false,
        }),
        effect.modifier is LocationModifier ==> spec_effect_targets(
            layout,
            effect,
            source_type_id,
        ).no_duplicates(),
        effect.modifier matches Modifier::LocationGroupModifier(group_id) ==> (spec_effect_targets(
            layout,
            effect,
            source_type_id,
        ).contains(o) <==> match o {
            Object::Ship => layout.hull.group_id == group_id,
            Object::Item(i) => i < layout.modules@.len() && layout.modules@[i as int].item.group_id
                == group_id,
            Object::Charge(i) => i < layout.modules@.len() && match layout.modules@[i as int].charge {
                Some(c) => c.group_id == group_id,
                None => false,
            },
            _ => false,
        }),
{
    broadcast use vstd::seq_lib::lemma_seq_concat_contains_all_elements;
    broadcast use vstd::seq_lib::lemma_seq_contains_after_push;
    broadcast use vstd::seq_lib::lemma_seq_empty_contains_nothing;

    let mods = layout.modules@;
    let n = mods.len() as int;
    match effect.modifier {
        Modifier::LocationModifier => {
            lemma_location_targets_contents(mods, n, o);
            lemma_location_targets_distinct(mods, n);
            lemma_location_targets_contents(mods, n, Object::Ship);
            let s = location_targets_upto(mods, n);
            let t = seq![Object::Ship] + s;
            assert forall|a: int, b: int| 0 <= a < b < t.len() implies t[a] != t[b] by {
                if a == 0 {
                    assert(t[b] == s[b - 1]);
                    assert(s.contains(s[b - 1]));
                } else {
                    assert(t[a] == s[a - 1]);
                    assert(t[b] == s[b - 1]);
                }
            }
        },
        Modifier::LocationGroupModifier(group_id) => {
            lemma_group_targets_contents(mods, n, group_id, o);
        },
        _ => {},
    }
}

proof fn lemma_location_targets_distinct(mods: Seq<ModuleInfo>, n: int)
    requires
        0 <= n <= mods.len() <= usize::MAX,
    ensures
        location_targets_upto(mods, n).no_duplicates(),
    decreases n,
{
    broadcast use vstd::seq_lib::lemma_seq_concat_contains_all_elements;
    broadcast use vstd::seq_lib::lemma_seq_contains_after_push;
    broadcast use vstd::seq_lib::lemma_seq_empty_contains_nothing;

    if n > 0 {
        lemma_location_targets_distinct(mods, n - 1);
        let prev = location_targets_upto(mods, n - 1);
        let last = location_module_targets(mods, n - 1);
        let s = prev + last;
        assert forall|a: int, b: int| 0 <= a < b < s.len() implies s[a] != s[b] by {
            if b < prev.len() {
                assert(s[a] == prev[a]);
                assert(s[b] == prev[b]);
            } else if a < prev.len() {
                assert(s[a] == prev[a]);
                assert(prev.contains(prev[a]));
                lemma_location_targets_contents(mods, n - 1, prev[a]);
                assert(s[b] == last[b - prev.len()]);
            } else {
                assert(s[a] == last[a - prev.len()]);
                assert(s[b] == last[b - prev.len()]);
            }
        }
    }
}

proof fn lemma_modifier_effects_contents(
    mods: Seq<DogmaEffectModifierInfo>,
    n: int,
    category: EffectCategory,
    origin: Object,
    has_charge: bool,
    e: Pass2Effect,
)
    requires
        0 <= n <= mods.len(),
    ensures
        modifier_effects(mods, n, category, origin, has_charge).contains(e) <==> exists|j: int|
            0 <= j < n && modifier_outcome(#[trigger] mods[j], category, origin, has_charge) == Some(
                e,
            ),
    decreases n,
{
    broadcast use vstd::seq_lib::lemma_seq_contains_after_push;

    if n > 0 {
        lemma_modifier_effects_contents(mods, n - 1, category, origin, has_charge, e);
    }
}

proof fn lemma_collected_effects_contents(
    entries: Seq<(i32, DogmaEffect)>,
    n: int,
    origin: Object,
    has_charge: bool,
    e: Pass2Effect,
)
    requires
        0 <= n <= entries.len(),
    ensures
        collected_effects(entries, n, origin, has_charge).contains(e) <==> exists|i: int, j: int|
            0 <= i < n && 0 <= j < entries[i].1.modifier_info@.len() && modifier_outcome(
                #[trigger] entries[i].1.modifier_info@[j],
                spec_effect_category(entries[i].1.effect_category),
                origin,
                has_charge,
            ) == Some(e),
    decreases n,
{
    broadcast use vstd::seq_lib::lemma_seq_concat_contains_all_elements;

    if n > 0 {
        lemma_collected_effects_contents(entries, n - 1, origin, has_charge, e);
        let d = entries[n - 1].1;
        lemma_modifier_effects_contents(
            d.modifier_info@,
            d.modifier_info@.len() as int,
            spec_effect_category(d.effect_category),
            origin,
            has_charge,
            e,
        );
    }
}

proof fn lemma_plain_effect_ids_contents(entries: Seq<(i32, DogmaEffect)>, n: int, id: i32)
    requires
        0 <= n <= entries.len(),
    ensures
        plain_effect_ids(entries, n).contains(id) <==> exists|i: int|
            0 <= i < n && (#[trigger] entries[i]).1.modifier_info@.len() == 0 && entries[i].0 == id,
    decreases n,
{
    broadcast use vstd::seq_lib::lemma_seq_contains_after_push;

    if n > 0 {
        lemma_plain_effect_ids_contents(entries, n - 1, id);
    }
}

/// Effect collection: every modifier whose function and operation are
/// known becomes an effect of its item, found on the item, in the category
/// of its dogma effect, from its modifying to its modified attribute, on
/// the object its domain names; the one exception is a modifier on the
/// "other" item of a module that holds no charge. Every collected effect
/// comes from such a modifier and is found on the item. The effects
/// without modifiers are exactly those whose IDs the holder keeps.
pub proof fn lemma_collected_effects_exact(
    entries: Seq<(i32, DogmaEffect)>,
    origin: Object,
    has_charge: bool,
    id: i32,
)
    ensures
        forall|i: int, j: int|
            0 <= i < entries.len() && 0 <= j < entries[i].1.modifier_info@.len() && (
            #[trigger] entries[i].1.modifier_info@[j]).operation is Some && spec_modifier_func(
                entries[i].1.modifier_info@[j].func,
                entries[i].1.modifier_info@[j].skill_type_id,
                entries[i].1.modifier_info@[j].group_id,
            ) is Some && spec_effect_operator(entries[i].1.modifier_info@[j].operation->0) is Some
                && !(origin is Item && entries[i].1.modifier_info@[j].domain
                == DogmaEffectModifierInfoDomain::OtherID && !has_charge) ==> collected_effects(
                entries,
                entries.len() as int,
                origin,
                has_charge,
            ).contains(
                Pass2Effect {
                    modifier: spec_modifier_func(
                        entries[i].1.modifier_info@[j].func,
                        entries[i].1.modifier_info@[j].skill_type_id,
                        entries[i].1.modifier_info@[j].group_id,
                    )->0,
                    operator: spec_effect_operator(entries[i].1.modifier_info@[j].operation->0)->0,
                    source: origin,
                    source_category: spec_effect_category(entries[i].1.effect_category),
                    source_attribute_id: entries[i].1.modifier_info@[j].modifying_attribute_id->0,
                    target: spec_target_object(entries[i].1.modifier_info@[j].domain, origin),
                    target_attribute_id: entries[i].1.modifier_info@[j].modified_attribute_id->0,
                },
            ),
        forall|e: Pass2Effect|
            #[trigger] collected_effects(entries, entries.len() as int, origin, has_charge).contains(e)
                ==> e.source == origin && exists|i: int, j: int|
                0 <= i < entries.len() && 0 <= j < entries[i].1.modifier_info@.len()
                    && e.source_category == spec_effect_category(entries[i].1.effect_category)
                    && e.source_attribute_id == (#[trigger] entries[i].1.modifier_info@[j]).modifying_attribute_id->0
                    && e.target_attribute_id == entries[i].1.modifier_info@[j].modified_attribute_id->0
                    && e.target == spec_target_object(entries[i].1.modifier_info@[j].domain, origin)
                    && !(origin is Item && entries[i].1.modifier_info@[j].domain
                    == DogmaEffectModifierInfoDomain::OtherID && !has_charge),
        plain_effect_ids(entries, entries.len() as int).contains(id) <==> exists|i: int|
            0 <= i < entries.len() && (#[trigger] entries[i]).1.modifier_info@.len() == 0
                && entries[i].0 == id,
{
    let n = entries.len() as int;
    lemma_plain_effect_ids_contents(entries, n, id);
    assert forall|i: int, j: int|
        0 <= i < entries.len() && 0 <= j < entries[i].1.modifier_info@.len() && (
        #[trigger] entries[i].1.modifier_info@[j]).operation is Some && spec_modifier_func(
            entries[i].1.modifier_info@[j].func,
            entries[i].1.modifier_info@[j].skill_type_id,
            entries[i].1.modifier_info@[j].group_id,
        ) is Some && spec_effect_operator(entries[i].1.modifier_info@[j].operation->0) is Some
            && !(origin is Item && entries[i].1.modifier_info@[j].domain
            == DogmaEffectModifierInfoDomain::OtherID && !has_charge) implies collected_effects(
        entries,
        n,
        origin,
        has_charge,
    ).contains(
        Pass2Effect {
            modifier: spec_modifier_func(
                entries[i].1.modifier_info@[j].func,
                entries[i].1.modifier_info@[j].skill_type_id,
                entries[i].1.modifier_info@[j].group_id,
            )->0,
            operator: spec_effect_operator(entries[i].1.modifier_info@[j].operation->0)->0,
            source: origin,
            source_category: spec_effect_category(entries[i].1.effect_category),
            source_attribute_id: entries[i].1.modifier_info@[j].modifying_attribute_id->0,
            target: spec_target_object(entries[i].1.modifier_info@[j].domain, origin),
            target_attribute_id: entries[i].1.modifier_info@[j].modified_attribute_id->0,
        },
    ) by {
        let m = entries[i].1.modifier_info@[j];
        let e = Pass2Effect {
            modifier: spec_modifier_func(m.func, m.skill_type_id, m.group_id)->0,
            operator: spec_effect_operator(m.operation->0)->0,
            source: origin,
            source_category: spec_effect_category(entries[i].1.effect_category),
            source_attribute_id: m.modifying_attribute_id->0,
            target: spec_target_object(m.domain, origin),
            target_attribute_id: m.modified_attribute_id->0,
        };
        lemma_collected_effects_contents(entries, n, origin, has_charge, e);
        assert(modifier_outcome(m, spec_effect_category(entries[i].1.effect_category), origin, has_charge) == Some(e));
    }
    assert forall|e: Pass2Effect|
        #[trigger] collected_effects(entries, n, origin, has_charge).contains(e) implies e.source
        == origin && exists|i: int, j: int|
        0 <= i < entries.len() && 0 <= j < entries[i].1.modifier_info@.len() && e.source_category
            == spec_effect_category(entries[i].1.effect_category) && e.source_attribute_id == (
        #[trigger] entries[i].1.modifier_info@[j]).modifying_attribute_id->0 && e.target_attribute_id
            == entries[i].1.modifier_info@[j].modified_attribute_id->0 && e.target
            == spec_target_object(entries[i].1.modifier_info@[j].domain, origin) && !(origin is Item
            && entries[i].1.modifier_info@[j].domain == DogmaEffectModifierInfoDomain::OtherID
            && !has_charge) by {
        lemma_collected_effects_contents(entries, n, origin, has_charge, e);
    }
}

} // verus!
