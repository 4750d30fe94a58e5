//! What kind of hit a player lands.

use crate::ieee::{lemma_single_value, Single};
use vstd::arithmetic::power2::{lemma_pow2_unfold, pow2};
use vstd::prelude::*;

verus! {

/// Bit pattern of 1.5: a mace smashes after a longer fall than this.
pub const SMASH_FALL_BITS: u32 = 0x3fc0_0000;

/// Bit pattern of 0.9: a hit is strong once the cooldown is past this.
pub const STRONG_PROGRESS_BITS: u32 = 0x3f66_6666;

#[derive(Clone, Copy, Debug, PartialEq, Eq, Structural)]
pub enum AttackType {
    Knockback,
    Critical,
    Sweeping,
    Strong,
    Weak,
    MaceSmash,
}

/// The sound of a hit.
#[derive(Clone, Copy, Debug, PartialEq, Eq, Structural)]
pub enum AttackSound {
    EntityPlayerAttackKnockback,
    EntityPlayerAttackCrit,
    EntityPlayerAttackSweep,
    EntityPlayerAttackStrong,
    EntityPlayerAttackWeak,
    ItemMaceSmashAir,
}

/// What decides whether a hit is critical.
#[derive(Clone, Copy)]
pub struct CriticalAttackContext {
    pub full_strength: bool,
    pub on_ground: bool,
    pub fall_distance: Single,
    pub mobility_restricted: bool,
    pub climbing: bool,
    pub touching_water: bool,
    pub has_vehicle: bool,
    pub sprinting: bool,
    pub target_is_living: bool,
}

/// What is known of a player that hits.
#[derive(Clone, Copy)]
pub struct Attacker {
    pub sprinting: bool,
    pub on_ground: bool,
    pub fall_distance: Single,
    pub holds_mace: bool,
    pub holds_sword: bool,
    /// Blinded.
    pub mobility_restricted: bool,
    pub has_vehicle: bool,
    pub climbing: bool,
    pub touching_water: bool,
    /// Not moving too fast to sweep.
    pub sweep_speed_ok: bool,
}

impl CriticalAttackContext {
    /// A critical hit takes full strength and a free fall onto something alive.
    pub open spec fn allows_critical(self) -> bool {
        &&& self.full_strength
        &&& self.target_is_living
        &&& !self.on_ground
        &&& self.fall_distance.above(Single { bits: 0 })
        &&& !(self.mobility_restricted || self.climbing || self.touching_water || self.has_vehicle
            || self.sprinting)
    }
}

#[must_use]
pub fn can_critical_attack(context: CriticalAttackContext) -> (critical: bool)
    ensures
        critical == context.allows_critical(),
{
    context.full_strength && !context.on_ground && context.fall_distance.exceeds(
        Single { bits: 0 },
    ) && !context.mobility_restricted && !context.climbing && !context.touching_water
        && !context.has_vehicle && !context.sprinting && context.target_is_living
}

impl Attacker {
    /// Whether a mace in hand smashes.
    pub open spec fn smashes(self) -> bool {
        self.holds_mace && !self.on_ground && self.fall_distance.above(
            Single { bits: SMASH_FALL_BITS },
        )
    }

    /// What decides whether this player's hit is critical.
    pub open spec fn critical_context(
        self,
        full_strength: bool,
        target_is_living: bool,
    ) -> CriticalAttackContext {
        CriticalAttackContext {
            full_strength,
            on_ground: self.on_ground,
            fall_distance: self.fall_distance,
            mobility_restricted: self.mobility_restricted,
            climbing: self.climbing,
            touching_water: self.touching_water,
            has_vehicle: self.has_vehicle,
            sprinting: self.sprinting,
            target_is_living,
        }
    }
}

/// Whether the cooldown has progressed far enough for a strong hit.
pub open spec fn is_strong(attack_cooldown_progress: Single) -> bool {
    attack_cooldown_progress.above(Single { bits: STRONG_PROGRESS_BITS })
}

/// What kind of hit a player lands: the first of smash, knockback, critical and sweep whose
/// conditions hold, or else a plain strong or weak hit.
pub open spec fn attack_kind(
    attacker: Attacker,
    attack_cooldown_progress: Single,
    target_is_living: bool,
) -> AttackType {
    let strong = is_strong(attack_cooldown_progress);
    if attacker.smashes() {
        AttackType::MaceSmash
    } else if strong && attacker.sprinting {
        AttackType::Knockback
    } else if attacker.critical_context(strong, target_is_living).allows_critical() {
        AttackType::Critical
    } else if strong && attacker.holds_sword && attacker.on_ground && attacker.sweep_speed_ok {
        AttackType::Sweeping
    } else if strong {
        AttackType::Strong
    } else {
        AttackType::Weak
    }
}

impl AttackType {
    #[must_use]
    pub fn new(
        attacker: &Attacker,
        attack_cooldown_progress: Single,
        target_is_living: bool,
    ) -> (kind: Self)
        ensures
            kind == attack_kind(*attacker, attack_cooldown_progress, target_is_living),
    {
        if attacker.holds_mace && !attacker.on_ground && attacker.fall_distance.exceeds(
            Single { bits: SMASH_FALL_BITS },
        ) {
            return AttackType::MaceSmash;
        }
        let strong = attack_cooldown_progress.exceeds(Single { bits: STRONG_PROGRESS_BITS });
        if attacker.sprinting && strong {
            return AttackType::Knockback;
        }
        if can_critical_attack(
            CriticalAttackContext {
                full_strength: strong,
                on_ground: attacker.on_ground,
                fall_distance: attacker.fall_distance,
                mobility_restricted: attacker.mobility_restricted,
                climbing: attacker.climbing,
                touching_water: attacker.touching_water,
                has_vehicle: attacker.has_vehicle,
                sprinting: attacker.sprinting,
                target_is_living,
            },
        ) {
            return AttackType::Critical;
        }
        if attacker.holds_sword && strong && attacker.on_ground && attacker.sweep_speed_ok {
            return AttackType::Sweeping;
        }
        if strong {
            AttackType::Strong
        } else {
            AttackType::Weak
        }
    }
}

/// The sound of a kind of hit.
pub open spec fn sound_of(attack_type: AttackType) -> AttackSound {
    match attack_type {
        AttackType::Knockback => AttackSound::EntityPlayerAttackKnockback,
        AttackType::Critical => AttackSound::EntityPlayerAttackCrit,
        AttackType::Sweeping => AttackSound::EntityPlayerAttackSweep,
        AttackType::Strong => AttackSound::EntityPlayerAttackStrong,
        AttackType::Weak => AttackSound::EntityPlayerAttackWeak,
        AttackType::MaceSmash => AttackSound::ItemMaceSmashAir,
    }
}

/// The sound to play to everyone for a hit.
#[must_use]
pub fn player_attack_sound(attack_type: AttackType) -> (sound: AttackSound)
    ensures
        sound == sound_of(attack_type),
{
    match attack_type {
        AttackType::Knockback => AttackSound::EntityPlayerAttackKnockback,
        AttackType::Critical => AttackSound::EntityPlayerAttackCrit,
        AttackType::Sweeping => AttackSound::EntityPlayerAttackSweep,
        AttackType::Strong => AttackSound::EntityPlayerAttackStrong,
        AttackType::Weak => AttackSound::EntityPlayerAttackWeak,
        AttackType::MaceSmash => AttackSound::ItemMaceSmashAir,
    }
}

/// Before the cooldown is far enough along only a mace smash is more than a weak hit.
pub proof fn law_early_hits_smash_or_are_weak(
    attacker: Attacker,
    attack_cooldown_progress: Single,
    target_is_living: bool,
)
    requires
        !is_strong(attack_cooldown_progress),
    ensures
        attack_kind(attacker, attack_cooldown_progress, target_is_living) == (
        if attacker.smashes() {
            AttackType::MaceSmash
        } else {
            AttackType::Weak
        }),
{
}

/// Critical hits fall, sweeping hits stand on the ground, and neither sprints.
pub proof fn law_critical_and_sweeping_are_apart(
    attacker: Attacker,
    attack_cooldown_progress: Single,
    target_is_living: bool,
)
    ensures
        attack_kind(attacker, attack_cooldown_progress, target_is_living) == AttackType::Critical
            ==> !attacker.on_ground && !attacker.sprinting && target_is_living,
        attack_kind(attacker, attack_cooldown_progress, target_is_living) == AttackType::Sweeping
            ==> attacker.on_ground && !attacker.sprinting && attacker.holds_sword,
{
}

/// Different kinds of hits sound different.
pub proof fn law_sounds_are_distinct(a: AttackType, b: AttackType)
    requires
        sound_of(a) == sound_of(b),
    ensures
        a == b,
{
}

/// A mace smashes out of any fall of more than a block and a half, whatever else holds, and
/// nothing else does.
pub proof fn law_smash_is_a_fall_with_a_mace(
    attacker: Attacker,
    attack_cooldown_progress: Single,
    target_is_living: bool,
)
    ensures
        attack_kind(attacker, attack_cooldown_progress, target_is_living) == AttackType::MaceSmash
            <==> attacker.holds_mace && !attacker.on_ground && attacker.fall_distance.above(
            Single { bits: 0x3fc0_0000 },
        ),
{
}

/// A hit knocks back exactly if the attacker sprints, the cooldown is past nine tenths, and it is
/// no mace smash, whatever else holds.
pub proof fn law_knockback_is_a_strong_sprint(
    attacker: Attacker,
    attack_cooldown_progress: Single,
    target_is_living: bool,
)
    ensures
        attack_kind(attacker, attack_cooldown_progress, target_is_living) == AttackType::Knockback
            <==> attacker.sprinting && attack_cooldown_progress.above(Single { bits: 0x3f66_6666 })
            && !(attacker.holds_mace && !attacker.on_ground && attacker.fall_distance.above(
            Single { bits: 0x3fc0_0000 },
        )),
{
}

/// A hit is critical exactly if it is strong, lands on something alive, and comes out of a free
/// fall that is no mace smash: not on the ground, not blinded, not on a ladder, not in water, not
/// riding and not sprinting.
pub proof fn law_critical_is_a_free_fall(
    attacker: Attacker,
    attack_cooldown_progress: Single,
    target_is_living: bool,
)
    ensures
        attack_kind(attacker, attack_cooldown_progress, target_is_living) == AttackType::Critical
            <==> {
            &&& attack_cooldown_progress.above(Single { bits: 0x3f66_6666 })
            &&& target_is_living
            &&& !attacker.on_ground
            &&& attacker.fall_distance.above(Single { bits: 0 })
            &&& !attacker.mobility_restricted
            &&& !attacker.climbing
            &&& !attacker.touching_water
            &&& !attacker.has_vehicle
            &&& !attacker.sprinting
            &&& !(attacker.holds_mace && attacker.fall_distance.above(Single { bits: 0x3fc0_0000 }))
        },
{
}

/// A hit sweeps exactly if it is strong and made with a sword by someone who stands on the ground,
/// is slow enough and does not sprint.
pub proof fn law_sweep_is_a_sword_on_the_ground(
    attacker: Attacker,
    attack_cooldown_progress: Single,
    target_is_living: bool,
)
    ensures
        attack_kind(attacker, attack_cooldown_progress, target_is_living) == AttackType::Sweeping
            <==> attack_cooldown_progress.above(Single { bits: 0x3f66_6666 }) && attacker.holds_sword
            && attacker.on_ground && attacker.sweep_speed_ok && !attacker.sprinting,
{
}

/// A hit is weak exactly if the cooldown is not past nine tenths and it is no mace smash.
pub proof fn law_weak_is_early(
    attacker: Attacker,
    attack_cooldown_progress: Single,
    target_is_living: bool,
)
    ensures
        attack_kind(attacker, attack_cooldown_progress, target_is_living) == AttackType::Weak
            <==> !attack_cooldown_progress.above(Single { bits: 0x3f66_6666 }) && !(
        attacker.holds_mace && !attacker.on_ground && attacker.fall_distance.above(
            Single { bits: 0x3fc0_0000 },
        )),
{
}

/// Two hits that differ in the target alone are of one kind unless one of them is critical.
pub proof fn law_target_matters_to_criticals_only(
    attacker: Attacker,
    attack_cooldown_progress: Single,
)
    ensures
        ({
            let living = attack_kind(attacker, attack_cooldown_progress, true);
            let other = attack_kind(attacker, attack_cooldown_progress, false);
            living == AttackType::Critical && other == AttackType::Strong || living == other
        }),
{
}

/// A critical hit takes each of its conditions.
pub proof fn law_critical_takes_all_conditions(context: CriticalAttackContext)
    ensures
        context.allows_critical() <==> context.full_strength && context.target_is_living
            && !context.on_ground && context.fall_distance.above(Single { bits: 0 })
            && !context.mobility_restricted && !context.climbing && !context.touching_water
            && !context.has_vehicle && !context.sprinting,
{
}

/// A mace smashes after one and a half blocks, and the cooldown has to be past nine tenths, as near
/// as the format can tell.
pub proof fn law_thresholds()
    ensures
        ({
            let one = (Single { bits: 0x3f80_0000 }).value();
            let strong = (Single { bits: STRONG_PROGRESS_BITS }).value();
            let next = (Single { bits: (STRONG_PROGRESS_BITS + 1) as u32 }).value();
            &&& 2 * (Single { bits: SMASH_FALL_BITS }).value() == 3 * one
            &&& 10 * strong - 9 * one <= 5 * (next - strong)
            &&& 9 * one - 10 * strong <= 5 * (next - strong)
        }),
{
    lemma_single_value(127, 0);
    lemma_single_value(127, 0x40_0000);
    lemma_single_value(126, 0x66_6666);
    lemma_single_value(126, 0x66_6667);
    lemma_pow2_unfold(126);
    let p = pow2(125) as int;
    assert(0x80_0000 * (2 * p) == 0x100_0000 * p) by (nonlinear_arith);
    assert(0xc0_0000 * (2 * p) == 0x180_0000 * p) by (nonlinear_arith);
    assert(0xe6_6667 * p == 0xe6_6666 * p + p) by (nonlinear_arith);
    vstd::arithmetic::power2::lemma_pow2_pos(125);
}

/// Every kind of hit has its own sound.
pub proof fn law_sounds(attack_type: AttackType)
    ensures
        match sound_of(attack_type) {
            AttackSound::EntityPlayerAttackKnockback => attack_type == AttackType::Knockback,
            AttackSound::EntityPlayerAttackCrit => attack_type == AttackType::Critical,
            AttackSound::EntityPlayerAttackSweep => attack_type == AttackType::Sweeping,
            AttackSound::EntityPlayerAttackStrong => attack_type == AttackType::Strong,
            AttackSound::EntityPlayerAttackWeak => attack_type == AttackType::Weak,
            AttackSound::ItemMaceSmashAir => attack_type == AttackType::MaceSmash,
        },
{
}

} // verus!
