//! Warfare buffs: which attributes of which items a buff is registered on.

use vstd::prelude::*;

use crate::calculate::pass_2::{resolved_skill, skill_matches, TargetInfo};
use crate::constant::spec_attribute_skills;
use crate::fit::{Buff, BuffGroupModifier, BuffItemModifier, BuffSkillModifier};

verus! {

/// Warfare buff attribute ID pairs `(buff_id, buff_value)` consulted when
/// buffs are gathered from active modules.
pub const WARFARE_BUFFS: [(i32, i32); 4] = [
    (2468, 2469),  // warfareBuff1
    (2470, 2471),  // warfareBuff2
    (2472, 2473),  // warfareBuff3
    (2536, 2537),  // warfareBuff4
];

/// The attribute IDs of item modifiers, in order.
pub open spec fn item_modifier_ids(mods: Seq<BuffItemModifier>) -> Seq<i32> {
    mods.map_values(|m: BuffItemModifier| m.dogma_attribute_id)
}

/// The attribute IDs of the first `n` group modifiers that name `group_id`.
pub open spec fn group_modifier_ids(mods: Seq<BuffGroupModifier>, n: int, group_id: i32) -> Seq<i32>
    decreases n,
{
    if n <= 0 {
        seq![]
    } else {
        group_modifier_ids(mods, n - 1, group_id) + if mods[n - 1].group_id == group_id {
            seq![mods[n - 1].dogma_attribute_id]
        } else {
            seq![]
        }
    }
}

/// The attribute ID `attribute_id`, once for each of the first `n`
/// required-skill attributes of `t` that name `skill`.
pub open spec fn skill_hits(attribute_id: i32, t: TargetInfo, skill: i32, n: int) -> Seq<i32>
    decreases n,
{
    if n <= 0 {
        seq![]
    } else {
        skill_hits(attribute_id, t, skill, n - 1) + if skill_matches(t, n - 1, skill) {
            seq![attribute_id]
        } else {
            seq![]
        }
    }
}

/// The attribute IDs the first `n` skill modifiers register on `t`: each
/// modifier once per required-skill attribute of `t` naming its skill,
/// where -1 names the type of `t` itself.
pub open spec fn skill_modifier_ids(mods: Seq<BuffSkillModifier>, n: int, t: TargetInfo) -> Seq<i32>
    decreases n,
{
    if n <= 0 {
        seq![]
    } else {
        skill_modifier_ids(mods, n - 1, t) + skill_hits(
            mods[n - 1].dogma_attribute_id,
            t,
            resolved_skill(mods[n - 1].skill_id, t.type_id),
            spec_attribute_skills().len() as int,
        )
    }
}

/// The attributes a buff is registered on for its holder, the hull.
pub open spec fn spec_holder_attributes(buff: Buff) -> Seq<i32> {
    item_modifier_ids(buff.item_modifiers@)
}

/// The attributes a buff is registered on for an item located on its
/// holder (a module, drone or fighter).
pub open spec fn spec_location_attributes(buff: Buff, item: TargetInfo) -> Seq<i32> {
    item_modifier_ids(buff.location_modifiers@) + group_modifier_ids(
        buff.location_group_modifiers@,
        buff.location_group_modifiers@.len() as int,
        item.group_id,
    ) + skill_modifier_ids(
        buff.location_required_skill_modifiers@,
        buff.location_required_skill_modifiers@.len() as int,
        item,
    )
}

/// The attributes a buff is registered on for the charge of a module.
pub open spec fn spec_charge_attributes(buff: Buff, charge: TargetInfo) -> Seq<i32> {
    skill_modifier_ids(
        buff.charge_required_skill_modifiers@,
        buff.charge_required_skill_modifiers@.len() as int,
        charge,
    )
}

fn push_item_modifier_ids(mods: &Vec<BuffItemModifier>, out: &mut Vec<i32>)
    ensures
        final(out)@ == old(out)@ + item_modifier_ids(mods@),
{
    let ghost out0 = out@;
    let mut i: usize = 0;
    while i < mods.len()
        invariant
            i <= mods@.len(),
            out@ == out0 + item_modifier_ids(mods@.take(i as int)),
        decreases mods@.len() - i,
    {
        out.push(mods[i].dogma_attribute_id);
        assert(mods@.take(i + 1) =~= mods@.take(i as int).push(mods@[i as int]));
        assert(item_modifier_ids(mods@.take(i + 1)) =~= item_modifier_ids(mods@.take(i as int)).push(
            mods@[i as int].dogma_attribute_id,
        ));
        assert(out@ =~= out0 + item_modifier_ids(mods@.take(i + 1)));
        i = i + 1;
    }
    assert(mods@.take(mods@.len() as int) =~= mods@);
}

fn push_group_modifier_ids(mods: &Vec<BuffGroupModifier>, group_id: i32, out: &mut Vec<i32>)
    ensures
        final(out)@ == old(out)@ + group_modifier_ids(mods@, mods@.len() as int, group_id),
{
    let ghost out0 = out@;
    let mut i: usize = 0;
    while i < mods.len()
        invariant
            i <= mods@.len(),
            out@ == out0 + group_modifier_ids(mods@, i as int, group_id),
        decreases mods@.len() - i,
    {
        if mods[i].group_id == group_id {
            out.push(mods[i].dogma_attribute_id);
        }
        assert(out@ =~= out0 + group_modifier_ids(mods@, i + 1, group_id));
        i = i + 1;
    }
}

fn push_skill_modifier_ids(mods: &Vec<BuffSkillModifier>, item: &TargetInfo, out: &mut Vec<i32>)
    ensures
        final(out)@ == old(out)@ + skill_modifier_ids(mods@, mods@.len() as int, *item),
{
    let ghost out0 = out@;
    let n_attrs: usize = 6;
    assert(spec_attribute_skills().len() == 6);
    let mut i: usize = 0;
    while i < mods.len()
        invariant
            i <= mods@.len(),
            n_attrs == spec_attribute_skills().len(),
            out@ == out0 + skill_modifier_ids(mods@, i as int, *item),
        decreases mods@.len() - i,
    {
        let m = mods[i];
        let skill = if m.skill_id == -1 {
            item.type_id
        } else {
            m.skill_id
        };
        let ghost before = out@;
        let mut k: usize = 0;
        while k < n_attrs
            invariant
                k <= n_attrs,
                out@ == before + skill_hits(m.dogma_attribute_id, *item, skill, k as int),
            decreases n_attrs - k,
        {
            let hit = if k < item.required_skills.len() {
                match item.required_skills[k] {
                    Some(s) => s == skill,
                    None => false,
                }
            } else {
                false
            };
            if hit {
                out.push(m.dogma_attribute_id);
            }
            assert(out@ =~= before + skill_hits(m.dogma_attribute_id, *item, skill, k + 1));
            k = k + 1;
        }
        assert(out@ =~= out0 + skill_modifier_ids(mods@, i + 1, *item));
        i = i + 1;
    }
}

/// The attribute IDs, in order, on which a buff is registered for its
/// holder: the buff's item modifiers describe the holder itself, so this
/// applies to the ship hull only.
pub fn holder_attributes(buff: &Buff) -> (res: Vec<i32>)
    ensures
        res@ == spec_holder_attributes(*buff),
{
    let mut out: Vec<i32> = Vec::new();
    push_item_modifier_ids(&buff.item_modifiers, &mut out);
    assert(out@ =~= spec_holder_attributes(*buff));
    out
}

/// The attribute IDs, in order and with repetitions, on which a buff is
/// registered for an item located on its holder (a module, drone or
/// fighter; never the hull, never a charge): every location modifier; the
/// group modifiers naming the item's group; and each skill modifier once
/// per required-skill attribute of the item that names its skill (-1 naming
/// the item's own type).
pub fn location_attributes(buff: &Buff, item: &TargetInfo) -> (res: Vec<i32>)
    ensures
        res@ == spec_location_attributes(*buff, *item),
{
    let mut out: Vec<i32> = Vec::new();
    push_item_modifier_ids(&buff.location_modifiers, &mut out);
    push_group_modifier_ids(&buff.location_group_modifiers, item.group_id, &mut out);
    push_skill_modifier_ids(&buff.location_required_skill_modifiers, item, &mut out);
    assert(out@ =~= spec_location_attributes(*buff, *item));
    out
}

/// The attribute IDs, in order and with repetitions, on which a buff is
/// registered for the charge of a module: each charge skill modifier once
/// per required-skill attribute of the charge that names its skill (-1
/// naming the charge's own type).
pub fn charge_attributes(buff: &Buff, charge: &TargetInfo) -> (res: Vec<i32>)
    ensures
        res@ == spec_charge_attributes(*buff, *charge),
{
    let mut out: Vec<i32> = Vec::new();
    push_skill_modifier_ids(&buff.charge_required_skill_modifiers, charge, &mut out);
    assert(out@ =~= spec_charge_attributes(*buff, *charge));
    out
}

/// A buff without modifiers (such as `Buff::noop()`, the stand-in for a
/// buff ID missing from the data) is registered on no attribute of the
/// hull, of any module, or of any charge.
pub proof fn lemma_modifierless_buff_registers_nothing(buff: Buff, item: TargetInfo)
    requires
        buff.has_no_modifiers(),
    ensures
        spec_holder_attributes(buff) == Seq::<i32>::empty(),
        spec_location_attributes(buff, item) == Seq::<i32>::empty(),
        spec_charge_attributes(buff, item) == Seq::<i32>::empty(),
{
    assert(spec_holder_attributes(buff) =~= Seq::<i32>::empty());
    assert(spec_location_attributes(buff, item) =~= Seq::<i32>::empty());
}

/// Item modifiers describe the buff holder, location modifiers the items
/// located on it, charge modifiers the charges of its modules, and the
/// kinds never mix: what a buff registers on the hull depends on its item
/// modifiers alone, and what it registers on a located item or on a charge
/// does not depend on its item modifiers.
pub proof fn lemma_buff_registrations_are_separate(a: Buff, b: Buff, item: TargetInfo)
    ensures
        a.item_modifiers@ == b.item_modifiers@ ==> spec_holder_attributes(a)
            == spec_holder_attributes(b),
        (a.location_modifiers@ == b.location_modifiers@ && a.location_group_modifiers@
            == b.location_group_modifiers@ && a.location_required_skill_modifiers@
            == b.location_required_skill_modifiers@) ==> spec_location_attributes(a, item)
            == spec_location_attributes(b, item),
        a.charge_required_skill_modifiers@ == b.charge_required_skill_modifiers@
            ==> spec_charge_attributes(a, item) == spec_charge_attributes(b, item),
{
}

/// Whether some skill modifier among `mods` has attribute `attribute_id`
/// and names a skill (-1 naming the type of `t`) that one of the
/// required-skill attributes of `t` names.
pub open spec fn skill_modifier_reaches(mods: Seq<BuffSkillModifier>, t: TargetInfo, attribute_id: i32) -> bool {
    exists|i: int, k: int|
        0 <= i < mods.len() && 0 <= k < spec_attribute_skills().len() && (#[trigger] mods[i]).dogma_attribute_id
            == attribute_id && #[trigger] skill_matches(t, k, resolved_skill(mods[i].skill_id, t.type_id))
}

proof fn lemma_item_modifier_ids_contents(mods: Seq<BuffItemModifier>, a: i32)
    ensures
        item_modifier_ids(mods).contains(a) <==> exists|i: int|
            0 <= i < mods.len() && (#[trigger] mods[i]).dogma_attribute_id == a,
{
    let s = item_modifier_ids(mods);
    if s.contains(a) {
        let j = choose|j: int| 0 <= j < s.len() && s[j] == a;
        assert(mods[j].dogma_attribute_id == a);
    }
    assert forall|i: int| 0 <= i < mods.len() && (#[trigger] mods[i]).dogma_attribute_id == a implies s.contains(
        a,
    ) by {
        assert(s[i] == a);
    }
}

proof fn lemma_group_modifier_ids_contents(mods: Seq<BuffGroupModifier>, n: int, group_id: i32, a: i32)
    requires
        0 <= n <= mods.len(),
    ensures
        group_modifier_ids(mods, n, group_id).contains(a) <==> exists|i: int|
            0 <= i < n && (#[trigger] mods[i]).group_id == group_id && mods[i].dogma_attribute_id
                == a,
    decreases n,
{
    broadcast use vstd::seq_lib::lemma_seq_concat_contains_all_elements;
    broadcast use vstd::seq_lib::lemma_seq_contains_after_push;
    broadcast use vstd::seq_lib::lemma_seq_empty_contains_nothing;

    if n > 0 {
        lemma_group_modifier_ids_contents(mods, n - 1, group_id, a);
    }
}

proof fn lemma_skill_hits_contents(attribute_id: i32, t: TargetInfo, skill: i32, n: int, a: i32)
    requires
        0 <= n,
    ensures
        skill_hits(attribute_id, t, skill, n).contains(a) <==> a == attribute_id && exists|k: int|
            0 <= k < n && #[trigger] skill_matches(t, k, skill),
    decreases n,
{
    broadcast use vstd::seq_lib::lemma_seq_concat_contains_all_elements;
    broadcast use vstd::seq_lib::lemma_seq_contains_after_push;
    broadcast use vstd::seq_lib::lemma_seq_empty_contains_nothing;

    if n > 0 {
        lemma_skill_hits_contents(attribute_id, t, skill, n - 1, a);
    }
}

proof fn lemma_skill_modifier_ids_contents(mods: Seq<BuffSkillModifier>, n: int, t: TargetInfo, a: i32)
    requires
        0 <= n <= mods.len(),
    ensures
        skill_modifier_ids(mods, n, t).contains(a) <==> skill_modifier_reaches(mods.take(n), t, a),
    decreases n,
{
    broadcast use vstd::seq_lib::lemma_seq_concat_contains_all_elements;

    let attrs = spec_attribute_skills().len() as int;
    if n > 0 {
        lemma_skill_modifier_ids_contents(mods, n - 1, t, a);
        let m = mods[n - 1];
        let skill = resolved_skill(m.skill_id, t.type_id);
        lemma_skill_hits_contents(m.dogma_attribute_id, t, skill, attrs, a);
        let p = mods.take(n - 1);
        let q = mods.take(n);
        assert forall|i: int| 0 <= i < n - 1 implies q[i] == p[i] by {}
        assert(q[n - 1] == m);
        if skill_modifier_reaches(q, t, a) {
            let (i, k) = choose|i: int, k: int|
                0 <= i < q.len() && 0 <= k < attrs && (#[trigger] q[i]).dogma_attribute_id == a
                    && #[trigger] skill_matches(t, k, resolved_skill(q[i].skill_id, t.type_id));
            if i < n - 1 {
                assert(p[i] == q[i]);
                assert(skill_modifier_reaches(p, t, a));
            }
        }
        if skill_modifier_reaches(p, t, a) {
            let (i, k) = choose|i: int, k: int|
                0 <= i < p.len() && 0 <= k < attrs && (#[trigger] p[i]).dogma_attribute_id == a
                    && #[trigger] skill_matches(t, k, resolved_skill(p[i].skill_id, t.type_id));
            assert(q[i] == p[i]);
            assert(skill_modifier_reaches(q, t, a));
        }
        if skill_modifier_ids(mods, n, t).contains(a) && !skill_modifier_ids(mods, n - 1, t).contains(a) {
            let k = choose|k: int| 0 <= k < attrs && #[trigger] skill_matches(t, k, skill);
            assert(q[n - 1] == m);
            assert(skill_modifier_reaches(q, t, a));
        }
    } else {
        assert(mods.take(n).len() == 0);
    }
}

/// Buff registration, attribute by attribute: a buff is registered for its
/// holder on exactly the attributes of its item modifiers; for a located
/// item on exactly those of its location modifiers, of its group modifiers
/// naming the item's group, and of its skill modifiers whose skill one of
/// the item's required-skill attributes names; for a charge on exactly
/// those of its charge skill modifiers whose skill the charge requires.
pub proof fn lemma_buff_registration_contents(buff: Buff, item: TargetInfo, a: i32)
    ensures
        spec_holder_attributes(buff).contains(a) <==> exists|i: int|
            0 <= i < buff.item_modifiers@.len() && (#[trigger] buff.item_modifiers@[i]).dogma_attribute_id
                == a,
        spec_location_attributes(buff, item).contains(a) <==> (exists|i: int|
            0 <= i < buff.location_modifiers@.len()
                && (#[trigger] buff.location_modifiers@[i]).dogma_attribute_id == a) || (exists|i: int|
            0 <= i < buff.location_group_modifiers@.len()
                && (#[trigger] buff.location_group_modifiers@[i]).group_id == item.group_id
                && buff.location_group_modifiers@[i].dogma_attribute_id == a)
            || skill_modifier_reaches(buff.location_required_skill_modifiers@, item, a),
        spec_charge_attributes(buff, item).contains(a) <==> skill_modifier_reaches(
            buff.charge_required_skill_modifiers@,
            item,
            a,
        ),
{
    broadcast use vstd::seq_lib::lemma_seq_concat_contains_all_elements;

    lemma_item_modifier_ids_contents(buff.item_modifiers@, a);
    lemma_item_modifier_ids_contents(buff.location_modifiers@, a);
    let groups = buff.location_group_modifiers@;
    lemma_group_modifier_ids_contents(groups, groups.len() as int, item.group_id, a);
    let skills = buff.location_required_skill_modifiers@;
    lemma_skill_modifier_ids_contents(skills, skills.len() as int, item, a);
    assert(skills.take(skills.len() as int) =~= skills);
    let charges = buff.charge_required_skill_modifiers@;
    lemma_skill_modifier_ids_contents(charges, charges.len() as int, item, a);
    assert(charges.take(charges.len() as int) =~= charges);
}

} // verus!
