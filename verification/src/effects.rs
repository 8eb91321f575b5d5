use vstd::prelude::*;

use crate::combat::{
    effective_damage, spec_effective_damage, wrapped_i32, AttackTimer, NpcAttackPhase, NpcAttackTick,
};
use crate::spellbook::SpellDef;
use crate::text::{decimal, decimal_chars, owned, push_range, push_str, same_text, string_from_chars};

verus! {

/// What a spell effect does, apart from how long it lasts: the length of a
/// stun and the durations of shields and buffs are seconds, kept and timed by
/// the game (see `attack_cycle_after_effect` for what a stun does).
#[derive(Debug, Clone, Copy, PartialEq, Eq, Structural)]
pub enum EffectKind {
    Damage { amount: u32 },
    Stun,
    Shield { amount: u32 },
    Buff { amount: i32 },
    Binding { amount: u32 },
}

/// The hit points and bindings of an opponent.
#[derive(Debug, Clone, Copy, PartialEq, Eq, Structural)]
pub struct NpcVitals {
    pub hp: u32,
    pub max: u32,
    pub bindings: u32,
}

impl NpcVitals {
    /// A fresh opponent: 100 of 100 hit points, not bound.
    pub fn default() -> (r: Self)
        ensures
            r.hp == 100,
            r.max == 100,
            r.bindings == 0,
    {
        NpcVitals { hp: 100, max: 100, bindings: 0 }
    }
}

/// Damage takes hit points (with the attack buffs added, never below zero),
/// binding adds bindings; other effects leave the opponent alone.
pub open spec fn npc_after_effect(npc: NpcVitals, effect: EffectKind, buff_total: i32) -> NpcVitals {
    match effect {
        EffectKind::Damage { amount } => {
            let d = spec_effective_damage(amount, buff_total);
            NpcVitals { hp: if d >= npc.hp { 0 } else { (npc.hp - d) as u32 }, ..npc }
        },
        EffectKind::Binding { amount } => NpcVitals { bindings: (npc.bindings + amount) as u32, ..npc },
        _ => npc,
    }
}

/// Only damage wounds an opponent and only a binding binds it: after a stun,
/// shield or buff the opponent's hit points and bindings are as they were,
/// damage never heals it, and no effect changes its maximum.
pub proof fn lemma_only_damage_wounds_and_only_binding_binds(npc: NpcVitals, effect: EffectKind, buff_total: i32)
    ensures
        npc_after_effect(npc, effect, buff_total).max == npc.max,
        !(effect is Damage) ==> npc_after_effect(npc, effect, buff_total).hp == npc.hp,
        !(effect is Binding) ==> npc_after_effect(npc, effect, buff_total).bindings == npc.bindings,
        effect is Damage ==> npc_after_effect(npc, effect, buff_total).hp <= npc.hp,
{
}

/// Applies a spell effect to an opponent.
pub fn apply_effect_to_npc(npc: &mut NpcVitals, effect: EffectKind, buff_total: i32)
    requires
        effect matches EffectKind::Damage { amount } ==> i32::MIN <= wrapped_i32(amount) + buff_total <= i32::MAX,
        effect matches EffectKind::Binding { amount } ==> old(npc).bindings + amount <= u32::MAX,
    ensures
        final(npc).max == old(npc).max,
        !(effect is Damage) ==> final(npc).hp == old(npc).hp,
        !(effect is Binding) ==> final(npc).bindings == old(npc).bindings,
        effect is Damage ==> final(npc).hp <= old(npc).hp,
        *final(npc) == npc_after_effect(*old(npc), effect, buff_total),
{
    match effect {
        EffectKind::Damage { amount } => {
            let d = effective_damage(amount, buff_total);
            npc.hp = npc.hp.saturating_sub(d);
        },
        EffectKind::Binding { amount } => {
            npc.bindings = npc.bindings + amount;
        },
        _ => {},
    }
}

/// What an effect does to an opponent's attack cycle, whose stage is
/// `phase` and whose chosen attack is `chosen`: a stun puts the opponent in
/// the stunned stage, its timer restarting with the stun's length (the
/// attack it had chosen stays chosen, and the cycle drops it when the stun
/// ends); any other effect leaves the cycle as it is.
pub fn attack_cycle_after_effect(effect: EffectKind, phase: NpcAttackPhase, chosen: Option<usize>) -> (r:
    NpcAttackTick)
    ensures
        effect is Stun ==> r == (NpcAttackTick {
            phase: NpcAttackPhase::Stunned,
            chosen,
            timer: AttackTimer::Stun,
            fired: None,
        }),
        !(effect is Stun) ==> r == (NpcAttackTick { phase, chosen, timer: AttackTimer::Keep, fired: None }),
{
    match effect {
        EffectKind::Stun => NpcAttackTick { phase: NpcAttackPhase::Stunned, chosen, timer: AttackTimer::Stun, fired: None },
        _ => NpcAttackTick { phase, chosen, timer: AttackTimer::Keep, fired: None },
    }
}

/// An attack buff the player holds: its id, its label and how much it adds
/// to each damage.
#[derive(Debug, Clone)]
pub struct AttackBuff {
    pub id: u64,
    pub name: String,
    pub value: i32,
}

/// The player's shields and attack buffs. (How long each lasts is timed by
/// the game.)
#[derive(Debug, Clone)]
pub struct PlayerEffects {
    /// The amount of each shield, oldest first.
    pub shields: Vec<u32>,
    pub attack_buffs: Vec<AttackBuff>,
    /// The id the next buff gets.
    pub next_buff_id: u64,
}

impl PlayerEffects {
    /// No shield and no buff; buff ids start at zero.
    pub fn default() -> (r: Self)
        ensures
            r.shields@.len() == 0,
            r.attack_buffs@.len() == 0,
            r.next_buff_id == 0,
    {
        PlayerEffects { shields: Vec::new(), attack_buffs: Vec::new(), next_buff_id: 0 }
    }
}

/// Applies a spell effect to the player: a shield is added, a buff is added
/// under the next buff id (its label is its amount after a plus sign), which
/// is returned; other effects leave the player alone.
pub fn apply_effect_to_player(player: &mut PlayerEffects, effect: EffectKind) -> (buff_id: Option<u64>)
    requires
        effect is Buff ==> old(player).next_buff_id < u64::MAX,
    ensures
        match effect {
            EffectKind::Shield { amount } => {
                &&& final(player).shields@ == old(player).shields@.push(amount)
                &&& final(player).attack_buffs@ == old(player).attack_buffs@
                &&& final(player).next_buff_id == old(player).next_buff_id
                &&& buff_id is None
            },
            EffectKind::Buff { amount } => {
                &&& buff_id == Some(old(player).next_buff_id)
                &&& final(player).next_buff_id == old(player).next_buff_id + 1
                &&& final(player).shields@ == old(player).shields@
                &&& final(player).attack_buffs@.len() == old(player).attack_buffs@.len() + 1
                &&& forall|k: int| 0 <= k < old(player).attack_buffs@.len() ==> #[trigger] final(player).attack_buffs@[k]
                    == old(player).attack_buffs@[k]
                &&& final(player).attack_buffs@.last().id == old(player).next_buff_id
                &&& final(player).attack_buffs@.last().value == amount
                &&& final(player).attack_buffs@.last().name@ == seq!['+'] + signed_decimal(amount)
            },
            _ => {
                &&& final(player).shields@ == old(player).shields@
                &&& final(player).attack_buffs@ == old(player).attack_buffs@
                &&& final(player).next_buff_id == old(player).next_buff_id
                &&& buff_id is None
            },
        },
{
    match effect {
        EffectKind::Shield { amount } => {
            player.shields.push(amount);
            None
        },
        EffectKind::Buff { amount } => {
            let id = player.next_buff_id;
            player.next_buff_id = id + 1;
            let mut label: Vec<char> = Vec::new();
            label.push('+');
            push_signed(&mut label, amount);
            let name = string_from_chars(label.as_slice());
            player.attack_buffs.push(AttackBuff { id, name, value: amount });
            Some(id)
        },
        _ => None,
    }
}

/// Whether the buff `id` is still held (its box stays on screen while it is).
pub fn buff_active(player: &PlayerEffects, id: u64) -> (r: bool)
    ensures
        r == exists|k: int| 0 <= k < player.attack_buffs@.len() && #[trigger] player.attack_buffs@[k].id == id,
{
    let mut k: usize = 0;
    while k < player.attack_buffs.len()
        invariant
            k <= player.attack_buffs.len(),
            forall|j: int| 0 <= j < k ==> #[trigger] player.attack_buffs@[j].id != id,
        decreases player.attack_buffs.len() - k,
    {
        if player.attack_buffs[k].id == id {
            return true;
        }
        k = k + 1;
    }
    false
}

/// The values of the player's attack buffs, whose sum raises each damage.
pub fn buff_values(player: &PlayerEffects) -> (r: Vec<i32>)
    ensures
        r@.len() == player.attack_buffs@.len(),
        forall|k: int| 0 <= k < r@.len() ==> #[trigger] r@[k] == player.attack_buffs@[k].value,
{
    let mut out: Vec<i32> = Vec::new();
    let mut k: usize = 0;
    while k < player.attack_buffs.len()
        invariant
            k <= player.attack_buffs.len(),
            out@.len() == k,
            forall|j: int| 0 <= j < k ==> #[trigger] out@[j] == player.attack_buffs@[j].value,
        decreases player.attack_buffs.len() - k,
    {
        out.push(player.attack_buffs[k].value);
        k = k + 1;
    }
    out
}

/// `n` written in decimal, with a minus sign when negative.
pub open spec fn signed_decimal(n: i32) -> Seq<char> {
    if n < 0 {
        seq!['-'] + decimal((-n) as nat)
    } else {
        decimal(n as nat)
    }
}

/// Appends `n` in decimal, with a minus sign when negative.
fn push_signed(out: &mut Vec<char>, n: i32)
    ensures
        final(out)@ == old(out)@ + signed_decimal(n),
{
    if n < 0 {
        out.push('-');
        let magnitude: u32 = if n == i32::MIN {
            2147483648u32
        } else {
            (-n) as u32
        };
        let digits = decimal_chars(magnitude as usize);
        push_range(out, &digits, 0, digits.len());
        assert(digits@.subrange(0, digits@.len() as int) =~= digits@);
        assert(out@ =~= old(out)@ + signed_decimal(n));
    } else {
        let digits = decimal_chars(n as usize);
        push_range(out, &digits, 0, digits.len());
        assert(digits@.subrange(0, digits@.len() as int) =~= digits@);
        assert(out@ =~= old(out)@ + signed_decimal(n));
    }
}

/// The text that flies up from the opponent when an effect lands: the damage
/// dealt, "STUN", the shield gained, the bindings added; a buff shows its
/// amount in a box instead.
pub open spec fn effect_text(effect: EffectKind, buff_total: i32) -> Seq<char> {
    match effect {
        EffectKind::Damage { amount } => decimal(spec_effective_damage(amount, buff_total) as nat),
        EffectKind::Stun => "STUN"@,
        EffectKind::Shield { amount } => seq!['+'] + decimal(amount as nat) + " Shield"@,
        EffectKind::Buff { amount } => seq!['+'] + signed_decimal(amount),
        EffectKind::Binding { amount } => seq!['+'] + decimal(amount as nat) + " BIND"@,
    }
}

/// The text shown when `effect` lands.
pub fn effect_label(effect: EffectKind, buff_total: i32) -> (r: String)
    requires
        effect matches EffectKind::Damage { amount } ==> i32::MIN <= wrapped_i32(amount) + buff_total <= i32::MAX,
    ensures
        r@ == effect_text(effect, buff_total),
{
    let mut out: Vec<char> = Vec::new();
    match effect {
        EffectKind::Damage { amount } => {
            let d = effective_damage(amount, buff_total);
            out = decimal_chars(d as usize);
        },
        EffectKind::Stun => {
            return owned("STUN");
        },
        EffectKind::Shield { amount } => {
            out.push('+');
            let digits = decimal_chars(amount as usize);
            push_range(&mut out, &digits, 0, digits.len());
            assert(digits@.subrange(0, digits@.len() as int) =~= digits@);
            push_str(&mut out, " Shield");
        },
        EffectKind::Buff { amount } => {
            out.push('+');
            push_signed(&mut out, amount);
        },
        EffectKind::Binding { amount } => {
            out.push('+');
            let digits = decimal_chars(amount as usize);
            push_range(&mut out, &digits, 0, digits.len());
            assert(digits@.subrange(0, digits@.len() as int) =~= digits@);
            push_str(&mut out, " BIND");
        },
    }
    string_from_chars(out.as_slice())
}

/// The sum of the attack buffs.
pub open spec fn buff_sum(values: Seq<i32>) -> int
    decreases values.len(),
{
    if values.len() == 0 {
        0
    } else {
        buff_sum(values.drop_last()) + values.last()
    }
}

/// The total of the player's attack buffs, added to each damage the next
/// spell deals.
pub fn buff_total(values: &[i32]) -> (r: i32)
    requires
        forall|k: int| 0 <= k <= values@.len() ==> i32::MIN <= #[trigger] buff_sum(values@.take(k)) <= i32::MAX,
    ensures
        r == buff_sum(values@),
{
    let mut total: i32 = 0;
    let mut i: usize = 0;
    while i < values.len()
        invariant
            i <= values.len(),
            total == buff_sum(values@.take(i as int)),
            forall|k: int| 0 <= k <= values@.len() ==> i32::MIN <= #[trigger] buff_sum(values@.take(k)) <= i32::MAX,
        decreases values.len() - i,
    {
        assert(values@.take(i + 1).drop_last() =~= values@.take(i as int));
        assert(values@.take(i + 1).last() == values@[i as int]);
        assert(i32::MIN <= buff_sum(values@.take(i + 1)) <= i32::MAX);
        total = total + values[i];
        i = i + 1;
    }
    assert(values@.take(i as int) =~= values@);
    total
}

/// The position in the book of the spell cast by `word`, whose effects then
/// play; `None` when the book has no such spell.
pub fn find_spell(spells: &[SpellDef], word: &str) -> (r: Option<usize>)
    ensures
        r matches Some(i) ==> i < spells@.len() && spells@[i as int].word@ == word@ && forall|j: int|
            0 <= j < i ==> spells@[j].word@ != word@,
        r is None ==> forall|j: int| 0 <= j < spells@.len() ==> spells@[j].word@ != word@,
{
    let mut i: usize = 0;
    while i < spells.len()
        invariant
            i <= spells.len(),
            forall|j: int| 0 <= j < i ==> spells@[j].word@ != word@,
        decreases spells.len() - i,
    {
        if same_text(spells[i].word.as_str(), word) {
            return Some(i);
        }
        i = i + 1;
    }
    None
}

/// One frame of the effects display, over the queue, the effect on screen
/// and the current buff total: the queue, effect and total after it, and the
/// effect that lands in it with the total to apply it with. An effect on
/// screen lands on its first frame and is cleared once its display time is
/// over (`display_over`); with nothing on screen, the first queued effect
/// comes on and its buff total becomes current.
pub open spec fn advance_model<E>(
    queue: Seq<(E, i32)>,
    active: Option<ActiveEffect<E>>,
    buff_total: i32,
    display_over: bool,
) -> (Seq<(E, i32)>, Option<ActiveEffect<E>>, i32, Option<(E, i32)>) {
    match active {
        Some(a) => (
            queue,
            if display_over { None } else { Some(ActiveEffect { effect: a.effect, landed: true }) },
            buff_total,
            if a.landed { None } else { Some((a.effect, buff_total)) },
        ),
        None => if queue.len() == 0 {
            (queue, None, buff_total, None)
        } else {
            (queue.subrange(1, queue.len() as int), Some(ActiveEffect { effect: queue[0].0, landed: false }), queue[0].1, None)
        },
    }
}

/// Frames of the effects display whose display time is always over: the
/// queue, effect on screen and buff total after `k` of them, and the effects
/// that landed, in order, with their totals.
pub open spec fn run_effect_frames<E>(queue: Seq<(E, i32)>, active: Option<ActiveEffect<E>>, buff_total: i32, k: nat) -> (
    Seq<(E, i32)>,
    Option<ActiveEffect<E>>,
    i32,
    Seq<(E, i32)>,
)
    decreases k,
{
    if k == 0 {
        (queue, active, buff_total, Seq::empty())
    } else {
        let before = run_effect_frames(queue, active, buff_total, (k - 1) as nat);
        let step = advance_model(before.0, before.1, before.2, true);
        (step.0, step.1, step.2, match step.3 {
            Some(l) => before.3.push(l),
            None => before.3,
        })
    }
}

/// Queued effects play one at a time, each landing exactly once, in the
/// order queued and with the buff total of the cast that queued it: from an
/// idle display, after two frames per effect the first `k` queued effects
/// have landed, in order, and the rest still wait.
pub proof fn lemma_effects_land_in_queue_order<E>(queue: Seq<(E, i32)>, buff_total: i32, k: nat)
    requires
        k <= queue.len(),
    ensures
        ({
            let after = run_effect_frames(queue, None, buff_total, 2 * k);
            &&& after.3 == queue.take(k as int)
            &&& after.0 == queue.skip(k as int)
            &&& after.1 is None
        }),
    decreases k,
{
    if k > 0 {
        lemma_effects_land_in_queue_order(queue, buff_total, (k - 1) as nat);
        let mid = run_effect_frames(queue, None, buff_total, (2 * (k - 1)) as nat);
        let rest = queue.skip(k - 1);
        assert(rest.len() > 0);
        assert(rest[0] == queue[k - 1]);
        assert(rest.subrange(1, rest.len() as int) =~= queue.skip(k as int));
        assert(queue.take(k as int) =~= queue.take(k - 1).push(queue[k - 1]));
        assert(run_effect_frames(queue, None, buff_total, (2 * k - 1) as nat) == run_effect_frames(
            queue,
            None,
            buff_total,
            (2 * (k - 1) + 1) as nat,
        ));
        let one = run_effect_frames(queue, None, buff_total, (2 * (k - 1) + 1) as nat);
        assert(one.0 == queue.skip(k as int));
        assert(one.1 == Some(ActiveEffect { effect: queue[k - 1].0, landed: false }));
        assert(one.2 == queue[k - 1].1);
        assert(one.3 == mid.3);
    }
}

/// The effect on screen and whether it has landed yet.
#[derive(Debug, Clone, Copy)]
pub struct ActiveEffect<E> {
    pub effect: E,
    pub landed: bool,
}

/// Spell effects waiting to be shown one after another, each with the buff
/// total of the cast that queued it.
#[derive(Debug, Clone)]
pub struct EffectsQueue<E> {
    pub queue: Vec<(E, i32)>,
    pub active: Option<ActiveEffect<E>>,
    pub buff_total: i32,
}

impl<E: Copy> EffectsQueue<E> {
    /// Nothing queued or showing.
    pub fn default() -> (r: Self)
        ensures
            r.queue@.len() == 0,
            r.active is None,
            r.buff_total == 0,
    {
        EffectsQueue { queue: Vec::new(), active: None, buff_total: 0 }
    }

    /// An effect is showing or waiting.
    pub fn is_busy(&self) -> (r: bool)
        ensures
            r == (self.active is Some || self.queue@.len() > 0),
    {
        self.active.is_some() || self.queue.len() > 0
    }

    /// Queues the effects of a cast, in order, with the cast's buff total.
    pub fn enqueue(&mut self, effects: &[E], buff_total: i32)
        ensures
            final(self).queue@ == old(self).queue@ + effects@.map_values(|e: E| (e, buff_total)),
            final(self).active == old(self).active,
            final(self).buff_total == old(self).buff_total,
    {
        let mut i: usize = 0;
        while i < effects.len()
            invariant
                i <= effects.len(),
                self.queue@ == old(self).queue@ + effects@.take(i as int).map_values(|e: E| (e, buff_total)),
                self.active == old(self).active,
                self.buff_total == old(self).buff_total,
            decreases effects.len() - i,
        {
            self.queue.push((effects[i], buff_total));
            assert(effects@.take(i + 1).map_values(|e: E| (e, buff_total)) =~= effects@.take(i as int).map_values(
                |e: E| (e, buff_total),
            ).push((effects@[i as int], buff_total)));
            i = i + 1;
        }
        assert(effects@.take(i as int) =~= effects@);
    }

    /// One frame of the effects display. A showing effect lands on its first
    /// frame (it is returned, with the buff total to apply it with) and is
    /// cleared once its display time is over (`display_over`); with nothing
    /// showing, the first queued effect comes on screen and its buff total
    /// becomes current.
    pub fn advance(&mut self, display_over: bool) -> (landed: Option<(E, i32)>)
        ensures
            (final(self).queue@, final(self).active, final(self).buff_total, landed) == advance_model(
                old(self).queue@,
                old(self).active,
                old(self).buff_total,
                display_over,
            ),
    {
        match self.active {
            Some(a) => {
                let landed = if a.landed {
                    None
                } else {
                    Some((a.effect, self.buff_total))
                };
                if display_over {
                    self.active = None;
                } else {
                    self.active = Some(ActiveEffect { effect: a.effect, landed: true });
                }
                landed
            },
            None => {
                if self.queue.len() > 0 {
                    let (effect, total) = self.queue.remove(0);
                    self.buff_total = total;
                    self.active = Some(ActiveEffect { effect, landed: false });
                }
                None
            },
        }
    }
}

} // verus!
