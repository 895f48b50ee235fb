//! The discrete decisions of attribute evaluation: which operators are
//! stacking-penalised, which effects are live, which attributes are
//! resonances, and how a buff's operation maps onto an effect operator.

use vstd::prelude::*;

use crate::calculate::item::{Effect, EffectCategory, EffectOperator};
use crate::fit::{Buff, BuffOperation};

verus! {

/// The operators whose effects can be stacking-penalised: the
/// multiplicative ones.
pub open spec fn spec_operator_has_penalty(operator: EffectOperator) -> bool {
    match operator {
        EffectOperator::PreMul | EffectOperator::PostMul | EffectOperator::PostPercent
        | EffectOperator::PreDiv | EffectOperator::PostDiv => true,
        _ => false,
    }
}

/// Whether effects with `operator` take part in the stacking penalty.
pub fn operator_has_penalty(operator: EffectOperator) -> (res: bool)
    ensures
        res == spec_operator_has_penalty(operator),
{
    match operator {
        EffectOperator::PreMul | EffectOperator::PostMul | EffectOperator::PostPercent
        | EffectOperator::PreDiv | EffectOperator::PostDiv => true,
        _ => false,
    }
}

/// The resonance attributes (shield, armor, hull), whose values are kept
/// within 0 and 1.
pub open spec fn spec_resonance_attributes() -> Seq<i32> {
    seq![271i32, 272i32, 273i32, 274i32, 267i32, 268i32, 269i32, 270i32, 113i32, 111i32, 109i32, 110i32]
}

/// Whether `attribute_id` is a resonance attribute, whose computed value is
/// clamped to the range 0 to 1.
pub fn is_resonance_attribute(attribute_id: i32) -> (res: bool)
    ensures
        res == spec_resonance_attributes().contains(attribute_id),
{
    proof {
        let s = spec_resonance_attributes();
        if s.contains(attribute_id) {
            let k = choose|k: int| 0 <= k < s.len() && s[k] == attribute_id;
        }
        assert(s[0] == 271 && s[1] == 272 && s[2] == 273 && s[3] == 274);
        assert(s[4] == 267 && s[5] == 268 && s[6] == 269 && s[7] == 270);
        assert(s[8] == 113 && s[9] == 111 && s[10] == 109 && s[11] == 110);
    }
    (271 <= attribute_id && attribute_id <= 274) || (267 <= attribute_id && attribute_id <= 270)
        || attribute_id == 113 || attribute_id == 111 || attribute_id == 109
        || attribute_id == 110
}

/// An effect is live only while its source is in a state at least as high
/// as the effect's category.
pub fn effect_is_live(effect_category: EffectCategory, source_state: EffectCategory) -> (res: bool)
    ensures
        res == (effect_category.level() <= source_state.level()),
{
    effect_category.rank() <= source_state.rank()
}

pub open spec fn spec_buff_operator(operation: BuffOperation) -> EffectOperator {
    match operation {
        BuffOperation::PreAssign => EffectOperator::PreAssign,
        BuffOperation::PreMul => EffectOperator::PreMul,
        BuffOperation::PreDiv => EffectOperator::PreDiv,
        BuffOperation::ModAdd => EffectOperator::ModAdd,
        BuffOperation::ModSub => EffectOperator::ModSub,
        BuffOperation::PostMul => EffectOperator::PostMul,
        BuffOperation::PostDiv => EffectOperator::PostDiv,
        BuffOperation::PostPercent => EffectOperator::PostPercent,
        BuffOperation::PostAssign => EffectOperator::PostAssign,
    }
}

impl From<BuffOperation> for EffectOperator {
    fn from(value: BuffOperation) -> (res: Self) {
        match value {
            BuffOperation::PreAssign => EffectOperator::PreAssign,
            BuffOperation::PreMul => EffectOperator::PreMul,
            BuffOperation::PreDiv => EffectOperator::PreDiv,
            BuffOperation::ModAdd => EffectOperator::ModAdd,
            BuffOperation::ModSub => EffectOperator::ModSub,
            BuffOperation::PostMul => EffectOperator::PostMul,
            BuffOperation::PostDiv => EffectOperator::PostDiv,
            BuffOperation::PostPercent => EffectOperator::PostPercent,
            BuffOperation::PostAssign => EffectOperator::PostAssign,
        }
    }
}

impl vstd::std_specs::convert::FromSpecImpl<BuffOperation> for EffectOperator {
    open spec fn obeys_from_spec() -> bool {
        true
    }

    open spec fn from_spec(v: BuffOperation) -> Self {
        spec_buff_operator(v)
    }
}

/// How a modifier takes part in an operator's step of attribute
/// evaluation: applied in full, or subject to the stacking penalty.
#[derive(Debug, Clone, Copy, PartialEq, Eq, Structural)]
pub enum Stacking {
    Plain,
    Penalized,
}

pub open spec fn spec_effect_stacking(
    effect: Effect,
    operator: EffectOperator,
    source_state: Option<EffectCategory>,
) -> Option<Stacking> {
    match source_state {
        None => None,
        Some(state) => if effect.operator != operator || effect.source_category.level()
            > state.level() {
            None
        } else if effect.penalty && spec_operator_has_penalty(effect.operator) {
            Some(Stacking::Penalized)
        } else {
            Some(Stacking::Plain)
        },
    }
}

/// Whether and how an effect takes part in the step of `operator`:
/// `source_state` is the state of the effect's source, `None` when the
/// source is a charge that is not loaded. An effect of another operator, or
/// whose source is not in a state that enables its category, takes no part.
pub fn effect_stacking(
    effect: &Effect,
    operator: EffectOperator,
    source_state: Option<EffectCategory>,
) -> (res: Option<Stacking>)
    ensures
        res == spec_effect_stacking(*effect, operator, source_state),
{
    match source_state {
        None => None,
        Some(state) => {
            if effect.operator != operator || !effect_is_live(effect.source_category, state) {
                None
            } else if effect.penalty && operator_has_penalty(effect.operator) {
                Some(Stacking::Penalized)
            } else {
                Some(Stacking::Plain)
            }
        },
    }
}

pub open spec fn spec_buff_stacking(buff: Buff, operator: EffectOperator) -> Option<Stacking> {
    let buff_operator = spec_buff_operator(buff.operation);
    if buff_operator != operator {
        None
    } else if buff.penalized && spec_operator_has_penalty(buff_operator) {
        Some(Stacking::Penalized)
    } else {
        Some(Stacking::Plain)
    }
}

/// Whether and how a buff takes part in the step of `operator`: only in
/// the step of its own operation, penalised when it participates in
/// stacking penalties and its operation is a penalised one.
pub fn buff_stacking(buff: &Buff, operator: EffectOperator) -> (res: Option<Stacking>)
    ensures
        res == spec_buff_stacking(*buff, operator),
{
    let buff_operator = EffectOperator::from(buff.operation);
    if buff_operator != operator {
        None
    } else if buff.penalized && operator_has_penalty(buff_operator) {
        Some(Stacking::Penalized)
    } else {
        Some(Stacking::Plain)
    }
}

/// An effect takes part in the step of its own operator alone, exactly
/// while its source is in a state that enables its category; raising the
/// source's state never changes how a taking-part effect is stacked, and it
/// is penalised only when it is flagged so and its operator is a
/// multiplicative one.
pub proof fn lemma_effect_stacking_laws(
    effect: Effect,
    operator: EffectOperator,
    low: EffectCategory,
    high: EffectCategory,
)
    ensures
        spec_effect_stacking(effect, operator, Some(low)) is Some <==> (effect.operator == operator
            && effect.source_category.level() <= low.level()),
        spec_effect_stacking(effect, operator, None) is None,
        low.level() <= high.level() && spec_effect_stacking(effect, operator, Some(low)) is Some
            ==> spec_effect_stacking(effect, operator, Some(high)) == spec_effect_stacking(
            effect,
            operator,
            Some(low),
        ),
        spec_effect_stacking(effect, operator, Some(low)) == Some(Stacking::Penalized) ==> (
        effect.penalty && (operator == EffectOperator::PreMul || operator == EffectOperator::PostMul
            || operator == EffectOperator::PostPercent || operator == EffectOperator::PreDiv
            || operator == EffectOperator::PostDiv)),
{
}

/// A buff takes part in exactly one step, that of the operator its
/// operation names, and distinct operations name distinct operators; it is
/// penalised there exactly when it participates in stacking penalties and
/// its operator is a multiplicative one.
pub proof fn lemma_buff_stacking_laws(buff: Buff, other: BuffOperation, operator: EffectOperator)
    ensures
        spec_buff_stacking(buff, operator) is Some <==> operator == spec_buff_operator(buff.operation),
        spec_buff_operator(other) == spec_buff_operator(buff.operation) ==> other == buff.operation,
        spec_buff_stacking(buff, operator) == Some(Stacking::Penalized) <==> (operator
            == spec_buff_operator(buff.operation) && buff.penalized && (operator
            == EffectOperator::PreMul || operator == EffectOperator::PostMul || operator
            == EffectOperator::PostPercent || operator == EffectOperator::PreDiv || operator
            == EffectOperator::PostDiv)),
{
}

} // verus!
