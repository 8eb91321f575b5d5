use vstd::prelude::*;

use rand::rngs::StdRng;

use crate::battle::BattlePhase;
use crate::random::random_below;

verus! {

/// The player's health.
#[derive(Debug, Clone, Copy, PartialEq, Eq, Structural)]
pub struct PlayerCombatState {
    pub hp: u32,
    pub max: u32,
}

impl PlayerCombatState {
    /// A player starting a run: 78 of 100 hit points.
    pub fn default() -> (r: Self)
        ensures
            r.hp == 78,
            r.max == 100,
    {
        PlayerCombatState { hp: 78, max: 100 }
    }

    /// The player has no hit points left, which ends the run.
    pub fn is_defeated(&self) -> (r: bool)
        ensures
            r == (self.hp == 0),
    {
        self.hp == 0
    }
}

/// The stage of an opponent's attack cycle (the timers that drive it are kept
/// by the game).
#[derive(Debug, Clone, Copy, PartialEq, Eq, Structural)]
pub enum NpcAttackPhase {
    Stunned,
    WaitingFor,
    AttackingIn,
    Cooldown,
}

/// The opponent's sprite frame: stunned (and during binding) it cowers,
/// preparing an attack it winds up, about to strike it lunges, otherwise it
/// stands.
pub open spec fn spec_npc_sprite_index(attack: NpcAttackPhase, has_chosen_attack: bool, phase: BattlePhase) -> usize {
    if phase == BattlePhase::Binding || attack == NpcAttackPhase::Stunned {
        3
    } else if !has_chosen_attack {
        0
    } else {
        match attack {
            NpcAttackPhase::WaitingFor => 2,
            NpcAttackPhase::AttackingIn => 1,
            _ => 0,
        }
    }
}

/// The sprite frame of the opponent.
pub fn npc_sprite_index(attack: NpcAttackPhase, has_chosen_attack: bool, phase: BattlePhase) -> (r: usize)
    ensures
        r == spec_npc_sprite_index(attack, has_chosen_attack, phase),
        r < 4,
{
    match (phase, attack) {
        (BattlePhase::Binding, _) | (_, NpcAttackPhase::Stunned) => {
            return 3;
        },
        _ => {},
    }
    if !has_chosen_attack {
        return 0;
    }
    match attack {
        NpcAttackPhase::WaitingFor => 2,
        NpcAttackPhase::AttackingIn => 1,
        _ => 0,
    }
}

/// How an opponent's attack timer restarts: it keeps running, is spent,
/// restarts with the length of the stun that hit it, or restarts with one of
/// the durations of the attack at the given position of the opponent's attack
/// list (the game keeps the lengths and durations).
#[derive(Debug, Clone, Copy, PartialEq, Eq, Structural)]
pub enum AttackTimer {
    Keep,
    Spent,
    Stun,
    Thinking(usize),
    Attack(usize),
    Cooldown(usize),
}

/// One frame of an opponent's attack cycle.
#[derive(Debug, Clone, Copy, PartialEq, Eq, Structural)]
pub struct NpcAttackTick {
    pub phase: NpcAttackPhase,
    /// The position of the attack being prepared, if one is.
    pub chosen: Option<usize>,
    pub timer: AttackTimer,
    /// The attack that strikes the player in this frame.
    pub fired: Option<usize>,
}

/// The attack cycle before a new attack is picked: when the timer runs out a
/// stun or a cooldown ends with no attack chosen, thinking ends in the wind-up
/// of the chosen attack, and a wind-up ends in the strike followed by the
/// attack's cooldown.
pub open spec fn attack_cycle_step(phase: NpcAttackPhase, chosen: Option<usize>, timer_expired: bool) -> NpcAttackTick {
    if !timer_expired {
        NpcAttackTick { phase, chosen, timer: AttackTimer::Keep, fired: None }
    } else {
        match phase {
            NpcAttackPhase::Stunned | NpcAttackPhase::Cooldown => NpcAttackTick {
                phase: NpcAttackPhase::Cooldown,
                chosen: None,
                timer: AttackTimer::Spent,
                fired: None,
            },
            NpcAttackPhase::WaitingFor => NpcAttackTick {
                phase: NpcAttackPhase::AttackingIn,
                chosen,
                timer: match chosen {
                    Some(a) => AttackTimer::Attack(a),
                    None => AttackTimer::Spent,
                },
                fired: None,
            },
            NpcAttackPhase::AttackingIn => NpcAttackTick {
                phase: NpcAttackPhase::Cooldown,
                chosen,
                timer: match chosen {
                    Some(a) => AttackTimer::Cooldown(a),
                    None => AttackTimer::Spent,
                },
                fired: chosen,
            },
        }
    }
}

/// An attack strikes only when its wind-up ends: in a frame of the cycle an
/// attack is fired exactly when the wind-up timer of the chosen attack runs
/// out, and it is that attack; when thinking, a cooldown or a stun runs out,
/// or while a timer still runs, nothing strikes. After a strike the opponent
/// cools down, so a chosen attack strikes once per cycle.
pub proof fn lemma_attack_strikes_only_when_wind_up_ends(
    phase: NpcAttackPhase,
    chosen: Option<usize>,
    timer_expired: bool,
)
    ensures
        attack_cycle_step(phase, chosen, timer_expired).fired == (if timer_expired && phase
            == NpcAttackPhase::AttackingIn {
            chosen
        } else {
            None
        }),
        attack_cycle_step(phase, chosen, timer_expired).fired is Some ==> attack_cycle_step(
            phase,
            chosen,
            timer_expired,
        ).phase == NpcAttackPhase::Cooldown,
{
}

/// One frame of an opponent's attacks. Nothing moves while binding. The cycle
/// advances when the timer has run out (`timer_expired`); then an opponent
/// that is not stunned, has no attack chosen and has attacks picks one of its
/// `attack_count` attacks at random and starts thinking about it.
pub fn tick_npc_attack(
    phase: NpcAttackPhase,
    chosen: Option<usize>,
    timer_expired: bool,
    in_binding: bool,
    attack_count: usize,
    rng: &mut StdRng,
) -> (r: NpcAttackTick)
    ensures
        r.fired == (if !in_binding && timer_expired && phase == NpcAttackPhase::AttackingIn {
            chosen
        } else {
            None
        }),
        in_binding ==> r == (NpcAttackTick { phase, chosen, timer: AttackTimer::Keep, fired: None }),
        !in_binding ==> {
            let step = attack_cycle_step(phase, chosen, timer_expired);
            if step.chosen is None && step.phase != NpcAttackPhase::Stunned && attack_count > 0 {
                &&& r.phase == NpcAttackPhase::WaitingFor
                &&& r.chosen matches Some(a) && a < attack_count && r.timer == AttackTimer::Thinking(a)
                &&& r.fired == step.fired
            } else {
                r == step
            }
        },
{
    if in_binding {
        return NpcAttackTick { phase, chosen, timer: AttackTimer::Keep, fired: None };
    }
    let mut tick = if !timer_expired {
        NpcAttackTick { phase, chosen, timer: AttackTimer::Keep, fired: None }
    } else {
        match phase {
            NpcAttackPhase::Stunned | NpcAttackPhase::Cooldown => NpcAttackTick {
                phase: NpcAttackPhase::Cooldown,
                chosen: None,
                timer: AttackTimer::Spent,
                fired: None,
            },
            NpcAttackPhase::WaitingFor => NpcAttackTick {
                phase: NpcAttackPhase::AttackingIn,
                chosen,
                timer: match chosen {
                    Some(a) => AttackTimer::Attack(a),
                    None => AttackTimer::Spent,
                },
                fired: None,
            },
            NpcAttackPhase::AttackingIn => NpcAttackTick {
                phase: NpcAttackPhase::Cooldown,
                chosen,
                timer: match chosen {
                    Some(a) => AttackTimer::Cooldown(a),
                    None => AttackTimer::Spent,
                },
                fired: chosen,
            },
        }
    };
    let stunned = match tick.phase {
        NpcAttackPhase::Stunned => true,
        _ => false,
    };
    if tick.chosen.is_none() && !stunned && attack_count > 0 {
        let a = random_below(rng, attack_count);
        tick.chosen = Some(a);
        tick.phase = NpcAttackPhase::WaitingFor;
        tick.timer = AttackTimer::Thinking(a);
    }
    tick
}

/// Binding starts when, while acting, an opponent has no hit points left.
pub fn should_start_binding(phase: BattlePhase, npc_hp: &[u32]) -> (r: bool)
    ensures
        r == (phase == BattlePhase::Acting && exists|i: int| 0 <= i < npc_hp@.len() && #[trigger] npc_hp@[i] == 0),
{
    if phase != BattlePhase::Acting {
        return false;
    }
    let mut i: usize = 0;
    while i < npc_hp.len()
        invariant
            i <= npc_hp.len(),
            phase == BattlePhase::Acting,
            forall|j: int| 0 <= j < i ==> #[trigger] npc_hp@[j] != 0,
        decreases npc_hp.len() - i,
    {
        if npc_hp[i] == 0 {
            assert(npc_hp@[i as int] == 0);
            return true;
        }
        i = i + 1;
    }
    false
}

/// `amount` read as a signed 32-bit number, as a wrapping cast reads it:
/// amounts above `i32::MAX` come out negative.
pub open spec fn wrapped_i32(amount: u32) -> int {
    if amount <= i32::MAX {
        amount as int
    } else {
        amount - 0x1_0000_0000
    }
}

/// Damage a spell deals once the player's attack buffs are added: never
/// below zero.
pub open spec fn spec_effective_damage(amount: u32, buff_total: i32) -> int {
    let d = wrapped_i32(amount) + buff_total;
    if d < 0 {
        0
    } else {
        d
    }
}

/// The damage a spell of `amount` deals with attack buffs summing to
/// `buff_total`. (The sum must fit in an `i32`.)
pub fn effective_damage(amount: u32, buff_total: i32) -> (r: u32)
    requires
        i32::MIN <= wrapped_i32(amount) + buff_total <= i32::MAX,
    ensures
        r == spec_effective_damage(amount, buff_total),
{
    let a: i32 = if amount <= 2147483647 {
        amount as i32
    } else {
        (amount - 2147483648) as i32 - 2147483647 - 1
    };
    let d = a + buff_total;
    if d < 0 {
        0
    } else {
        d as u32
    }
}

/// Hit points left after taking `damage`: never below zero.
pub fn hp_after_damage(hp: u32, damage: u32) -> (r: u32)
    ensures
        r == (if damage >= hp { 0 } else { hp - damage }),
{
    hp.saturating_sub(damage)
}

} // verus!
