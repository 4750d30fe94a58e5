use pumpkin::entity::combat::{
    can_critical_attack, player_attack_sound, AttackSound, AttackType, Attacker,
    CriticalAttackContext, SMASH_FALL_BITS, STRONG_PROGRESS_BITS,
};
use pumpkin::ieee::Single;

fn single(value: f32) -> Single {
    Single { bits: value.to_bits() }
}

fn context() -> CriticalAttackContext {
    CriticalAttackContext {
        full_strength: true,
        on_ground: false,
        fall_distance: single(1.0),
        mobility_restricted: false,
        climbing: false,
        touching_water: false,
        has_vehicle: false,
        sprinting: false,
        target_is_living: true,
    }
}

#[test]
fn critical_attacks_require_vanilla_mobility_conditions() {
    assert!(can_critical_attack(context()));

    for blocked in [
        CriticalAttackContext {
            mobility_restricted: true,
            ..context()
        },
        CriticalAttackContext {
            climbing: true,
            ..context()
        },
        CriticalAttackContext {
            touching_water: true,
            ..context()
        },
        CriticalAttackContext {
            sprinting: true,
            ..context()
        },
        CriticalAttackContext {
            target_is_living: false,
            ..context()
        },
    ] {
        assert!(!can_critical_attack(blocked));
    }
}

#[test]
fn critical_attacks_fall_at_full_strength_on_foot() {
    for blocked in [
        CriticalAttackContext { full_strength: false, ..context() },
        CriticalAttackContext { on_ground: true, ..context() },
        CriticalAttackContext { fall_distance: single(0.0), ..context() },
        CriticalAttackContext { fall_distance: single(-2.0), ..context() },
        CriticalAttackContext { has_vehicle: true, ..context() },
    ] {
        assert!(!can_critical_attack(blocked));
    }
}

fn standing() -> Attacker {
    Attacker {
        sprinting: false,
        on_ground: true,
        fall_distance: single(0.0),
        holds_mace: false,
        holds_sword: true,
        mobility_restricted: false,
        has_vehicle: false,
        climbing: false,
        touching_water: false,
        sweep_speed_ok: true,
    }
}

#[test]
fn attacks_are_told_apart() {
    let full = single(1.0);
    let falling = Attacker { on_ground: false, fall_distance: single(2.0), ..standing() };
    let mace = Attacker { holds_mace: true, holds_sword: false, ..falling };
    assert_eq!(AttackType::new(&mace, full, true), AttackType::MaceSmash);
    assert_eq!(AttackType::new(&mace, single(0.0), false), AttackType::MaceSmash);
    let short = Attacker { fall_distance: single(1.5), ..mace };
    assert_eq!(AttackType::new(&short, full, true), AttackType::Critical);
    let sprinting = Attacker { sprinting: true, ..standing() };
    assert_eq!(AttackType::new(&sprinting, full, true), AttackType::Knockback);
    assert_eq!(AttackType::new(&falling, full, true), AttackType::Critical);
    assert_eq!(AttackType::new(&falling, full, false), AttackType::Strong);
    assert_eq!(AttackType::new(&standing(), full, true), AttackType::Sweeping);
    let fast = Attacker { sweep_speed_ok: false, ..standing() };
    assert_eq!(AttackType::new(&fast, full, true), AttackType::Strong);
    let unarmed = Attacker { holds_sword: false, ..standing() };
    assert_eq!(AttackType::new(&unarmed, full, true), AttackType::Strong);
    assert_eq!(AttackType::new(&standing(), single(0.9), true), AttackType::Weak);
    assert_eq!(AttackType::new(&sprinting, single(0.5), true), AttackType::Weak);
}

#[test]
fn combat_limits_are_what_they_stand_for() {
    assert_eq!(SMASH_FALL_BITS, 1.5f32.to_bits());
    assert_eq!(STRONG_PROGRESS_BITS, 0.9f32.to_bits());
}

#[test]
fn attacks_have_their_own_sounds() {
    let pairs = [
        (AttackType::Knockback, AttackSound::EntityPlayerAttackKnockback),
        (AttackType::Critical, AttackSound::EntityPlayerAttackCrit),
        (AttackType::Sweeping, AttackSound::EntityPlayerAttackSweep),
        (AttackType::Strong, AttackSound::EntityPlayerAttackStrong),
        (AttackType::Weak, AttackSound::EntityPlayerAttackWeak),
        (AttackType::MaceSmash, AttackSound::ItemMaceSmashAir),
    ];
    for (kind, sound) in pairs {
        assert_eq!(player_attack_sound(kind), sound);
    }
}
