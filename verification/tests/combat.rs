use ludumdare59::battle::BattlePhase;
use ludumdare59::combat::{
    effective_damage, hp_after_damage, npc_sprite_index, should_start_binding, tick_npc_attack,
    AttackTimer, NpcAttackPhase, PlayerCombatState,
};
use ludumdare59::effects::{
    apply_effect_to_npc, apply_effect_to_player, attack_cycle_after_effect, buff_active, buff_total, buff_values, PlayerEffects, effect_label, find_spell, EffectKind, EffectsQueue, NpcVitals,
};
use ludumdare59::spellbook::SpellDef;
use rand::rngs::StdRng;
use rand::SeedableRng;

#[test]
fn player_starts_wounded() {
    let p = PlayerCombatState::default();
    assert_eq!((p.hp, p.max), (78, 100));
    assert!(!p.is_defeated());
    assert!(PlayerCombatState { hp: 0, max: 100 }.is_defeated());
}

#[test]
fn npc_cowers_while_binding_or_stunned() {
    assert_eq!(npc_sprite_index(NpcAttackPhase::WaitingFor, true, BattlePhase::Binding), 3);
    assert_eq!(npc_sprite_index(NpcAttackPhase::Stunned, false, BattlePhase::Acting), 3);
}

#[test]
fn npc_sprite_follows_attack_cycle() {
    assert_eq!(npc_sprite_index(NpcAttackPhase::WaitingFor, false, BattlePhase::Acting), 0);
    assert_eq!(npc_sprite_index(NpcAttackPhase::WaitingFor, true, BattlePhase::Acting), 2);
    assert_eq!(npc_sprite_index(NpcAttackPhase::AttackingIn, true, BattlePhase::Acting), 1);
    assert_eq!(npc_sprite_index(NpcAttackPhase::Cooldown, true, BattlePhase::Acting), 0);
}

#[test]
fn binding_starts_when_an_opponent_falls_while_acting() {
    assert!(should_start_binding(BattlePhase::Acting, &[5, 0]));
    assert!(!should_start_binding(BattlePhase::Acting, &[5, 1]));
    assert!(!should_start_binding(BattlePhase::Reacting, &[0]));
    assert!(!should_start_binding(BattlePhase::Acting, &[]));
}

#[test]
fn buffs_raise_damage_but_never_below_zero() {
    assert_eq!(effective_damage(10, 3), 13);
    assert_eq!(effective_damage(10, -4), 6);
    assert_eq!(effective_damage(2, -9), 0);
    // amounts beyond i32::MAX read as negative, as a wrapping cast reads them
    assert_eq!(effective_damage(u32::MAX, 5), 4);
    assert_eq!(effective_damage(u32::MAX, 0), 0);
}

#[test]
fn hit_points_stop_at_zero() {
    assert_eq!(hp_after_damage(30, 12), 18);
    assert_eq!(hp_after_damage(5, 12), 0);
}

#[test]
fn attack_cycle_waits_for_its_timer() {
    let mut rng = StdRng::seed_from_u64(3);
    let t = tick_npc_attack(NpcAttackPhase::WaitingFor, Some(1), false, false, 2, &mut rng);
    assert_eq!(t.phase, NpcAttackPhase::WaitingFor);
    assert_eq!(t.chosen, Some(1));
    assert_eq!(t.timer, AttackTimer::Keep);
    assert_eq!(t.fired, None);
}

#[test]
fn thinking_ends_in_wind_up_and_wind_up_strikes() {
    let mut rng = StdRng::seed_from_u64(3);
    let t = tick_npc_attack(NpcAttackPhase::WaitingFor, Some(1), true, false, 2, &mut rng);
    assert_eq!(t.phase, NpcAttackPhase::AttackingIn);
    assert_eq!(t.timer, AttackTimer::Attack(1));
    let t = tick_npc_attack(NpcAttackPhase::AttackingIn, Some(1), true, false, 2, &mut rng);
    assert_eq!(t.phase, NpcAttackPhase::Cooldown);
    assert_eq!(t.timer, AttackTimer::Cooldown(1));
    assert_eq!(t.fired, Some(1));
}

#[test]
fn after_cooldown_a_new_attack_is_picked() {
    let mut rng = StdRng::seed_from_u64(9);
    let t = tick_npc_attack(NpcAttackPhase::Cooldown, Some(0), true, false, 3, &mut rng);
    assert_eq!(t.phase, NpcAttackPhase::WaitingFor);
    let a = t.chosen.expect("an attack is chosen");
    assert!(a < 3);
    assert_eq!(t.timer, AttackTimer::Thinking(a));
    assert_eq!(t.fired, None);
}

#[test]
fn stun_ends_in_spent_cooldown_without_attacks() {
    let mut rng = StdRng::seed_from_u64(9);
    let t = tick_npc_attack(NpcAttackPhase::Stunned, Some(0), true, false, 0, &mut rng);
    assert_eq!(t.phase, NpcAttackPhase::Cooldown);
    assert_eq!(t.chosen, None);
    assert_eq!(t.timer, AttackTimer::Spent);
}

#[test]
fn nothing_moves_while_binding() {
    let mut rng = StdRng::seed_from_u64(9);
    let t = tick_npc_attack(NpcAttackPhase::AttackingIn, Some(2), true, true, 3, &mut rng);
    assert_eq!(t.phase, NpcAttackPhase::AttackingIn);
    assert_eq!(t.chosen, Some(2));
    assert_eq!(t.timer, AttackTimer::Keep);
    assert_eq!(t.fired, None);
}

#[test]
fn damage_and_binding_effects_change_the_opponent() {
    let mut npc = NpcVitals::default();
    apply_effect_to_npc(&mut npc, EffectKind::Damage { amount: 12 }, 3);
    assert_eq!(npc.hp, 85);
    apply_effect_to_npc(&mut npc, EffectKind::Binding { amount: 2 }, 3);
    assert_eq!(npc.bindings, 2);
    apply_effect_to_npc(&mut npc, EffectKind::Stun, 0);
    apply_effect_to_npc(&mut npc, EffectKind::Shield { amount: 4 }, 0);
    assert_eq!(npc, NpcVitals { hp: 85, max: 100, bindings: 2 });
    apply_effect_to_npc(&mut npc, EffectKind::Damage { amount: 500 }, 0);
    assert_eq!(npc.hp, 0);
}

#[test]
fn effect_labels_name_what_landed() {
    assert_eq!(effect_label(EffectKind::Damage { amount: 7 }, 2), "9");
    assert_eq!(effect_label(EffectKind::Stun, 0), "STUN");
    assert_eq!(effect_label(EffectKind::Shield { amount: 4 }, 0), "+4 Shield");
    assert_eq!(effect_label(EffectKind::Binding { amount: 1 }, 0), "+1 BIND");
    assert_eq!(effect_label(EffectKind::Buff { amount: 3 }, 0), "+3");
    assert_eq!(effect_label(EffectKind::Buff { amount: -2 }, 0), "+-2");
    assert_eq!(
        effect_label(EffectKind::Buff { amount: i32::MIN }, 0),
        format!("+{}", i32::MIN)
    );
}

#[test]
fn buff_total_sums_the_buffs() {
    assert_eq!(buff_total(&[]), 0);
    assert_eq!(buff_total(&[2, 5, -1]), 6);
}

#[test]
fn spells_are_found_by_their_first_word_match() {
    let spells = vec![
        SpellDef { word: "bop".to_string(), futharkation: "bop".to_string(), starter: true },
        SpellDef { word: "zap".to_string(), futharkation: "zap".to_string(), starter: false },
        SpellDef { word: "bop".to_string(), futharkation: "bAp".to_string(), starter: false },
    ];
    assert_eq!(find_spell(&spells, "bop"), Some(0));
    assert_eq!(find_spell(&spells, "zap"), Some(1));
    assert_eq!(find_spell(&spells, "nope"), None);
}

#[test]
fn effects_play_one_at_a_time_in_order() {
    let mut q: EffectsQueue<u8> = EffectsQueue::default();
    assert!(!q.is_busy());
    q.enqueue(&[1, 2], 5);
    q.enqueue(&[3], -1);
    assert!(q.is_busy());
    // first frame brings the first effect on screen
    assert_eq!(q.advance(false), None);
    assert_eq!(q.buff_total, 5);
    // it lands once
    assert_eq!(q.advance(false), Some((1, 5)));
    assert_eq!(q.advance(false), None);
    // and clears when its display time is over
    assert_eq!(q.advance(true), None);
    assert!(q.active.is_none());
    assert_eq!(q.advance(false), None);
    assert_eq!(q.advance(true), Some((2, 5)));
    assert_eq!(q.advance(false), None);
    assert_eq!(q.buff_total, -1);
    assert_eq!(q.advance(true), Some((3, -1)));
    assert!(!q.is_busy());
}

#[test]
fn shields_and_buffs_go_to_the_player() {
    let mut player = PlayerEffects::default();
    assert_eq!(apply_effect_to_player(&mut player, EffectKind::Shield { amount: 4 }), None);
    assert_eq!(player.shields, vec![4]);
    assert_eq!(apply_effect_to_player(&mut player, EffectKind::Buff { amount: 3 }), Some(0));
    assert_eq!(apply_effect_to_player(&mut player, EffectKind::Buff { amount: -1 }), Some(1));
    assert_eq!(player.next_buff_id, 2);
    assert_eq!(player.attack_buffs[0].name, "+3");
    assert_eq!(player.attack_buffs[1].name, "+-1");
    assert_eq!(apply_effect_to_player(&mut player, EffectKind::Damage { amount: 9 }), None);
    assert_eq!(player.attack_buffs.len(), 2);
    assert!(buff_active(&player, 1));
    assert!(!buff_active(&player, 7));
    assert_eq!(buff_total(&buff_values(&player)), 2);
}

#[test]
fn stun_puts_the_opponent_in_the_stunned_stage() {
    let t = attack_cycle_after_effect(EffectKind::Stun, NpcAttackPhase::AttackingIn, Some(2));
    assert_eq!(t.phase, NpcAttackPhase::Stunned);
    assert_eq!(t.chosen, Some(2));
    assert_eq!(t.timer, AttackTimer::Stun);
    assert_eq!(t.fired, None);
    let t = attack_cycle_after_effect(EffectKind::Damage { amount: 3 }, NpcAttackPhase::AttackingIn, Some(2));
    assert_eq!(t.phase, NpcAttackPhase::AttackingIn);
    assert_eq!(t.timer, AttackTimer::Keep);
    // once stunned, no new attack is picked until the stun is over
    let mut rng = StdRng::seed_from_u64(1);
    let held = tick_npc_attack(NpcAttackPhase::Stunned, None, false, false, 3, &mut rng);
    assert_eq!(held.phase, NpcAttackPhase::Stunned);
    assert_eq!(held.chosen, None);
}
