//! The rules of the contest: damage formulas, bucket selection for a dice
//! roll, damage application, win detection, and the resolution of one full
//! turn. Everything is a function of its inputs; the one source of chance,
//! the dice roll, is drawn once per turn and handed to the deterministic
//! part as a plain value.

use vstd::prelude::*;

use crate::model::{AttackType, ClientAction, PlayerInfo, TurnResultMsg};
use crate::mailbox::Outbox;

verus! {

/// Damage of a standard attack: a third of the attacker's power.
pub open spec fn standard_damage(power: int) -> int {
    power / 3
}

/// Damage of a lucky attack: a fifth more than a standard one.
pub open spec fn lucky_damage(power: int) -> int {
    standard_damage(power) + standard_damage(power) / 5
}

/// Damage of a critical attack: twice a standard one.
pub open spec fn critical_damage(power: int) -> int {
    2 * standard_damage(power)
}

/// Damage dealt by an attack of the given tier against the given power.
/// A miss and the undefined fallback deal no damage.
pub open spec fn damage_of(tier: AttackType, power: int) -> int {
    match tier {
        AttackType::Miss => 0,
        AttackType::Standard => standard_damage(power),
        AttackType::Lucky => lucky_damage(power),
        AttackType::Critical => critical_damage(power),
        AttackType::Undefined => 0,
    }
}

/// The tier that the bucket at position `i` of the boundary list maps to.
pub open spec fn tier_for_index(i: int) -> AttackType {
    if i == 0 {
        AttackType::Miss
    } else if i == 1 {
        AttackType::Standard
    } else if i == 2 {
        AttackType::Lucky
    } else if i == 3 {
        AttackType::Critical
    } else {
        AttackType::Undefined
    }
}

/// Walks the boundary list: the roll falls in the bucket `[lower, b[0])`,
/// or the walk moves on with `b[0]` as the new lower bound. A roll that
/// exhausts the list falls in no bucket and maps to `Undefined`.
pub open spec fn tier_from(b: Seq<u8>, dice: u8, lower: u8, i: int) -> AttackType
    decreases b.len(),
{
    if b.len() == 0 {
        AttackType::Undefined
    } else if lower <= dice && dice < b[0] {
        tier_for_index(i)
    } else {
        tier_from(b.skip(1), dice, b[0], i + 1)
    }
}

/// The tier of a dice roll under the given bucket boundaries: the
/// boundaries cut `[0, 256)` into half-open buckets mapped in order to
/// Miss, Standard, Lucky and Critical.
pub open spec fn tier_of_roll(b: Seq<u8>, dice: u8) -> AttackType {
    tier_from(b, dice, 0, 0)
}

/// If the attack is missed the attack damage is 0.
pub fn rule_miss(_power: u64) -> (r: u64)
    ensures
        r == 0,
{
    0
}

/// If the attack is standard the attack damage is a third of the power.
pub fn rule_standard(power: u64) -> (r: u64)
    ensures
        r == standard_damage(power as int),
{
    power / 3
}

/// If the attack is lucky the attack damage is a fifth more than standard.
pub fn rule_lucky(power: u64) -> (r: u64)
    ensures
        r == lucky_damage(power as int),
{
    let std_dmg = rule_standard(power);
    std_dmg + std_dmg / 5
}

/// If the attack is critical the attack damage is twice the standard one.
pub fn rule_critical(power: u64) -> (r: u64)
    ensures
        r == critical_damage(power as int),
{
    2 * rule_standard(power)
}

/// Maps a dice roll to its attack tier under the given bucket boundaries.
///
/// Re-running this with the same boundaries and roll always returns the
/// same tier: the result equals a function of the two arguments alone.
pub fn get_cluster_reducer(range_params: &Vec<u8>, dice: u8) -> (r: AttackType)
    ensures
        r == tier_of_roll(range_params@, dice),
{
    let mut lower: u8 = 0;
    let mut i: usize = 0;
    proof {
        assert(range_params@.skip(0) =~= range_params@);
    }
    while i < range_params.len()
        invariant
            0 <= i <= range_params@.len(),
            tier_of_roll(range_params@, dice) == tier_from(
                range_params@.skip(i as int),
                dice,
                lower,
                i as int,
            ),
        decreases range_params@.len() - i,
    {
        let upper = range_params[i];
        proof {
            assert(range_params@.skip(i as int)[0] == range_params@[i as int]);
            assert(range_params@.skip(i as int).skip(1) =~= range_params@.skip(i + 1));
        }
        if lower <= dice && dice < upper {
            return tier_index(i);
        }
        lower = upper;
        i = i + 1;
    }
    AttackType::Undefined
}

/// The tier that the bucket at position `i` maps to, as executable code.
fn tier_index(i: usize) -> (r: AttackType)
    ensures
        r == tier_for_index(i as int),
{
    if i == 0 {
        AttackType::Miss
    } else if i == 1 {
        AttackType::Standard
    } else if i == 2 {
        AttackType::Lucky
    } else if i == 3 {
        AttackType::Critical
    } else {
        AttackType::Undefined
    }
}

/// The damage an attack of the given tier deals against the given power.
pub fn apply_rule(tier: AttackType, power: u64) -> (r: u64)
    ensures
        r == damage_of(tier, power as int),
{
    match tier {
        AttackType::Miss => rule_miss(power),
        AttackType::Standard => rule_standard(power),
        AttackType::Lucky => rule_lucky(power),
        AttackType::Critical => rule_critical(power),
        AttackType::Undefined => 0,
    }
}

/// Applies damage to hit points, saturating at zero: the result is the
/// maximum of zero and `hp - dmg`, never negative.
pub fn process_dmg(hp: &u64, dmg: &u64) -> (r: u64)
    ensures
        r == vstd::math::max(*hp as int - *dmg as int, 0),
{
    if dmg > hp {
        0
    } else {
        hp - dmg
    }
}

/// Generates a new random integer between 0 and 100.
///
/// Relies on `rand::random_range`: a draw from the half-open range handed
/// to it, here `0..100`, so the result is always below 100.
#[verifier::external_body]
pub fn roll_dice() -> (r: u8)
    ensures
        r < 100,
{
    rand::random_range(0..100u8)
}

/// The index `k` positions after `i`, wrapping past `len`. Meant for
/// `0 <= i < len` and `1 <= k <= len`, where the result stays below `len`.
pub open spec fn idx_after(i: int, k: int, len: int) -> int {
    if i + k < len {
        i + k
    } else {
        i + k - len
    }
}

/// The position where the walk that starts `k` places after `i` first
/// meets a participant with hit points left, wrapping past the end of
/// the list; `i` itself is the last candidate tried.
pub open spec fn next_live_from(hp: Seq<u64>, i: int, k: int) -> int
    decreases hp.len() + 1 - k,
{
    if 1 <= k <= hp.len() {
        if hp[idx_after(i, k, hp.len() as int)] > 0 {
            idx_after(i, k, hp.len() as int)
        } else {
            next_live_from(hp, i, k + 1)
        }
    } else {
        i
    }
}

/// The first participant index after `i`, wrapping past the end of the
/// list, whose hit points are above zero.
pub open spec fn next_live_index(hp: Seq<u64>, i: int) -> int {
    next_live_from(hp, i, 1)
}

/// True exactly when every participant other than the one at `turn` is
/// out of the contest (hit points at zero).
pub fn is_winner(hp: &Vec<u64>, turn: usize) -> (r: bool)
    ensures
        r == forall|j: int| 0 <= j < hp@.len() && j != turn ==> hp@[j] == 0,
{
    let mut i: usize = 0;
    while i < hp.len()
        invariant
            0 <= i <= hp@.len(),
            forall|j: int| 0 <= j < i && j != turn ==> hp@[j] == 0,
        decreases hp@.len() - i,
    {
        if i != turn && hp[i] > 0 {
            return false;
        }
        i = i + 1;
    }
    true
}

/// Under the default boundaries, every roll lands where the rules say:
/// below 15 a miss, from 15 a standard hit, from 70 a lucky one, and
/// from 96 the undefined fallback, which the three boundaries leave
/// without a bucket.
pub proof fn lemma_default_bucket_selection(dice: u8)
    ensures
        tier_of_roll(crate::config::default_range(), dice) == (if dice < 15 {
            AttackType::Miss
        } else if dice < 70 {
            AttackType::Standard
        } else if dice < 96 {
            AttackType::Lucky
        } else {
            AttackType::Undefined
        }),
{
    let b = crate::config::default_range();
    let t1 = seq![70u8, 96u8];
    let t2 = seq![96u8];
    assert(b.skip(1) =~= t1);
    assert(t1.skip(1) =~= t2);
    assert(t2.skip(1) =~= Seq::<u8>::empty());
    assert(b[0] == 15 && t1[0] == 70 && t2[0] == 96);
    if dice < 15 {
        assert(tier_from(b, dice, 0, 0) == tier_for_index(0));
    } else if dice < 70 {
        assert(tier_from(b, dice, 0, 0) == tier_from(t1, dice, 15, 1));
        assert(tier_from(t1, dice, 15, 1) == tier_for_index(1));
    } else if dice < 96 {
        assert(tier_from(b, dice, 0, 0) == tier_from(t1, dice, 15, 1));
        assert(tier_from(t1, dice, 15, 1) == tier_from(t2, dice, 70, 2));
        assert(tier_from(t2, dice, 70, 2) == tier_for_index(2));
    } else {
        assert(tier_from(b, dice, 0, 0) == tier_from(t1, dice, 15, 1));
        assert(tier_from(t1, dice, 15, 1) == tier_from(t2, dice, 70, 2));
        assert(tier_from(t2, dice, 70, 2) == tier_from(Seq::<u8>::empty(), dice, 96, 3));
        assert(tier_from(Seq::<u8>::empty(), dice, 96, 3) == AttackType::Undefined);
    }
}

/// Re-running bucket selection with the same boundaries and the same
/// roll always yields the same tier: the tier returned by
/// [`get_cluster_reducer`] is a function of its two inputs alone,
/// independent of prior calls.
pub proof fn lemma_bucket_selection_repeatable(
    b: Seq<u8>,
    dice: u8,
    r1: AttackType,
    r2: AttackType,
)
    requires
        r1 == tier_of_roll(b, dice),
        r2 == tier_of_roll(b, dice),
    ensures
        r1 == r2,
{
}

/// Every index of a list is some offset between 1 and the length away
/// from `i`, counting forward with wrap-around.
proof fn lemma_offset_of_index(i: int, j: int, len: int)
    requires
        0 <= i < len,
        0 <= j < len,
    ensures
        exists|m: int| 1 <= m <= len && idx_after(i, m, len) == j,
{
    let m = if j > i {
        j - i
    } else {
        j - i + len
    };
    assert(1 <= m <= len && idx_after(i, m, len) == j);
}

/// The walk from offset `k` stops at the first live participant: its
/// result is at some offset at least `k`, is live, and every candidate
/// strictly before it is at zero.
proof fn lemma_next_live_from(hp: Seq<u64>, i: int, k: int)
    requires
        0 <= i < hp.len(),
        1 <= k <= hp.len(),
        exists|m: int| k <= m <= hp.len() && hp[idx_after(i, m, hp.len() as int)] > 0,
    ensures
        ({
            let r = next_live_from(hp, i, k);
            exists|m: int|
                k <= m <= hp.len() && r == idx_after(i, m, hp.len() as int) && hp[r] > 0
                    && (forall|m2: int|
                    k <= m2 < m ==> hp[idx_after(i, m2, hp.len() as int)] == 0)
        }),
    decreases hp.len() + 1 - k,
{
    let len = hp.len() as int;
    let c = idx_after(i, k, len);
    let r = next_live_from(hp, i, k);
    if hp[c] > 0 {
        assert(r == c && r == idx_after(i, k, len) && hp[r] > 0 && (forall|m2: int|
            k <= m2 < k ==> hp[idx_after(i, m2, len)] == 0));
    } else {
        let m0 = choose|m0: int| k <= m0 <= len && hp[idx_after(i, m0, len)] > 0;
        assert(m0 > k);
        lemma_next_live_from(hp, i, k + 1);
        let m = choose|m: int|
            k + 1 <= m <= len && r == idx_after(i, m, len) && hp[r] > 0 && (forall|m2: int|
                k + 1 <= m2 < m ==> hp[idx_after(i, m2, len)] == 0);
        assert(k <= m <= len && r == idx_after(i, m, len) && hp[r] > 0 && (forall|m2: int|
            k <= m2 < m ==> hp[idx_after(i, m2, len)] == 0));
    }
}

/// Turn advancement skips every participant at zero hit points, wrapping
/// past the end of the participant list: the chosen index is live, and
/// each index passed over on the way to it is at zero.
pub proof fn lemma_next_live_skips_dead(hp: Seq<u64>, i: int)
    requires
        0 <= i < hp.len(),
        exists|j: int| 0 <= j < hp.len() && hp[j] > 0,
    ensures
        ({
            let r = next_live_index(hp, i);
            0 <= r < hp.len() && hp[r] > 0 && exists|k: int|
                1 <= k <= hp.len() && r == idx_after(i, k, hp.len() as int) && (forall|m: int|
                    1 <= m < k ==> hp[idx_after(i, m, hp.len() as int)] == 0)
        }),
{
    let len = hp.len() as int;
    let j = choose|j: int| 0 <= j < hp.len() && hp[j] > 0;
    lemma_offset_of_index(i, j, len);
    let mj = choose|m: int| 1 <= m <= len && idx_after(i, m, len) == j;
    assert(hp[idx_after(i, mj, len)] > 0);
    lemma_next_live_from(hp, i, 1);
}

/// When some other participant is still live, turn advancement never
/// hands the turn back to the same index.
pub proof fn lemma_next_live_other(hp: Seq<u64>, i: int)
    requires
        0 <= i < hp.len(),
        exists|j: int| 0 <= j < hp.len() && j != i && hp[j] > 0,
    ensures
        0 <= next_live_index(hp, i) < hp.len(),
        hp[next_live_index(hp, i)] > 0,
        next_live_index(hp, i) != i,
{
    let len = hp.len() as int;
    lemma_next_live_skips_dead(hp, i);
    let r = next_live_index(hp, i);
    let k = choose|k: int|
        1 <= k <= len && r == idx_after(i, k, len) && (forall|m: int|
            1 <= m < k ==> hp[idx_after(i, m, len)] == 0);
    if r == i {
        assert(k == len);
        let j = choose|j: int| 0 <= j < hp.len() && j != i && hp[j] > 0;
        lemma_offset_of_index(i, j, len);
        let mj = choose|m: int| 1 <= m <= len && idx_after(i, m, len) == j;
        assert(mj < len);
        assert(hp[idx_after(i, mj, len)] == 0);
        assert(false);
    }
}

/// The first participant index after `i`, wrapping past the end of the
/// list, whose hit points are above zero; `i` itself is the last
/// candidate tried.
fn next_alive(hp: &Vec<u64>, i: usize) -> (r: usize)
    requires
        i < hp@.len(),
        exists|j: int| 0 <= j < hp@.len() && hp@[j] > 0,
    ensures
        r == next_live_index(hp@, i as int),
        r < hp@.len(),
        hp@[r as int] > 0,
{
    let len = hp.len();
    let ghost gl = len as int;
    let mut k: usize = 1;
    let mut c: usize = if i + 1 < len {
        i + 1
    } else {
        0
    };
    proof {
        assert(c == idx_after(i as int, 1, gl));
        let j = choose|j: int| 0 <= j < hp@.len() && hp@[j] > 0;
        lemma_offset_of_index(i as int, j, gl);
    }
    while hp[c] == 0
        invariant
            hp@.len() == len,
            i < len,
            1 <= k <= len,
            c < len,
            c == idx_after(i as int, k as int, gl),
            gl == len as int,
            next_live_index(hp@, i as int) == next_live_from(hp@, i as int, k as int),
            exists|m: int| k <= m <= len && hp@[idx_after(i as int, m, gl)] > 0,
        decreases len - k,
    {
        proof {
            if k == len {
                assert(c == i);
                let m = choose|m: int| k <= m <= len && hp@[idx_after(i as int, m, gl)] > 0;
                assert(m == len);
                assert(false);
            }
        }
        k = k + 1;
        c = if c + 1 < len {
            c + 1
        } else {
            0
        };
        proof {
            assert(c == idx_after(i as int, k as int, gl));
            let m = choose|m: int| k - 1 <= m <= len && hp@[idx_after(i as int, m, gl)] > 0;
            assert(m >= k);
        }
    }
    c
}

/// One hit-point count with damage applied, saturating at zero.
pub open spec fn applied_damage(hp: u64, dmg: int) -> u64 {
    if dmg > hp {
        0u64
    } else {
        (hp - dmg) as u64
    }
}

/// True when every participant other than the one at `turn` is at zero.
pub open spec fn all_others_down(hp: Seq<u64>, turn: int) -> bool {
    forall|j: int| 0 <= j < hp.len() && j != turn ==> hp[j] == 0
}

/// What one resolved turn must look like: the defender is the next live
/// index after the attacker; the dice roll picks the tier, the tier and
/// the attacker's power fix the damage; only the defender's hit points
/// change, saturating at zero; the turn then advances past anyone now at
/// zero; the winner is set exactly when nobody else is left standing;
/// and the narration is the turn action followed, unless the tier is the
/// undefined fallback, by the attack outcome.
pub open spec fn turn_outcome_ok(
    range: Seq<u8>,
    info: Seq<PlayerInfo>,
    hp: Seq<u64>,
    turn: int,
    dice: u8,
    r: TurnResultMsg,
    ob0: Seq<ClientAction>,
    ob1: Seq<ClientAction>,
) -> bool {
    let defender = next_live_index(hp, turn);
    let tier = tier_of_roll(range, dice);
    let dmg = damage_of(tier, info[turn].power as int);
    let newhp = hp.update(defender, applied_damage(hp[defender], dmg));
    &&& r.hp@ == newhp
    &&& r.next_turn == (if newhp[defender] > 0 {
        defender
    } else {
        next_live_index(newhp, defender)
    })
    &&& r.winner == (if all_others_down(newhp, turn) {
        Some((turn as usize, newhp[turn]))
    } else {
        None::<(usize, u64)>
    })
    &&& ob1 == (if tier is Undefined {
        ob0.push(ClientAction::PlayerAction(info[turn].name, info[defender].name))
    } else {
        ob0.push(ClientAction::PlayerAction(info[turn].name, info[defender].name)).push(
            ClientAction::AttackResult(tier, dmg as u64),
        )
    })
}

/// A participant at zero hit points is never handed the next turn: after
/// any resolved turn, the participant at `next_turn` is live.
pub proof fn lemma_next_turn_is_live(
    range: Seq<u8>,
    info: Seq<PlayerInfo>,
    hp: Seq<u64>,
    turn: int,
    dice: u8,
    r: TurnResultMsg,
    ob0: Seq<ClientAction>,
    ob1: Seq<ClientAction>,
)
    requires
        hp.len() == info.len(),
        0 <= turn < hp.len(),
        hp[turn] > 0,
        exists|j: int| 0 <= j < hp.len() && j != turn && hp[j] > 0,
        turn_outcome_ok(range, info, hp, turn, dice, r, ob0, ob1),
    ensures
        r.next_turn < r.hp@.len(),
        r.hp@[r.next_turn as int] > 0,
{
    let d = next_live_index(hp, turn);
    lemma_next_live_other(hp, turn);
    let newhp = hp.update(d, applied_damage(hp[d], damage_of(tier_of_roll(range, dice), info[
        turn
    ].power as int)));
    assert(newhp[turn] == hp[turn]);
    if newhp[d] > 0 {
        assert(r.next_turn == d);
    } else {
        assert(newhp[turn] > 0);
        lemma_next_live_skips_dead(newhp, d);
    }
}

/// The winner is set if and only if exactly one participant still has
/// hit points, and then the winner is the attacker with its unchanged
/// hit points: the attacker is never hit on its own turn, so the sole
/// survivor of a decisive turn is the attacker itself.
pub proof fn lemma_winner_iff_single_survivor(
    range: Seq<u8>,
    info: Seq<PlayerInfo>,
    hp: Seq<u64>,
    turn: int,
    dice: u8,
    r: TurnResultMsg,
    ob0: Seq<ClientAction>,
    ob1: Seq<ClientAction>,
)
    requires
        hp.len() <= usize::MAX,
        hp.len() == info.len(),
        0 <= turn < hp.len(),
        hp[turn] > 0,
        exists|j: int| 0 <= j < hp.len() && j != turn && hp[j] > 0,
        turn_outcome_ok(range, info, hp, turn, dice, r, ob0, ob1),
    ensures
        r.winner is Some <==> exists|j: int|
            0 <= j < r.hp@.len() && r.hp@[j] > 0 && (forall|k: int|
                0 <= k < r.hp@.len() && k != j ==> r.hp@[k] == 0),
        r.winner matches Some(w) ==> w.0 == turn && w.1 == hp[turn],
{
    let d = next_live_index(hp, turn);
    lemma_next_live_other(hp, turn);
    let newhp = hp.update(d, applied_damage(hp[d], damage_of(tier_of_roll(range, dice), info[
        turn
    ].power as int)));
    assert(newhp[turn] == hp[turn]);
    if all_others_down(newhp, turn) {
        assert(r.winner == Some((turn as usize, newhp[turn])));
        assert(newhp[turn] == hp[turn]);
        assert(newhp[turn] > 0 && (forall|k: int|
            0 <= k < newhp.len() && k != turn ==> newhp[k] == 0));
        assert(exists|j: int|
            0 <= j < newhp.len() && newhp[j] > 0 && (forall|k: int|
                0 <= k < newhp.len() && k != j ==> newhp[k] == 0));
    } else {
        assert(r.winner is None);
        let m = choose|m: int| 0 <= m < newhp.len() && m != turn && newhp[m] > 0;
        assert(newhp[m] > 0 && newhp[turn] > 0);
        if exists|j: int|
            0 <= j < newhp.len() && newhp[j] > 0 && (forall|k: int|
                0 <= k < newhp.len() && k != j ==> newhp[k] == 0) {
            let j = choose|j: int|
                0 <= j < newhp.len() && newhp[j] > 0 && (forall|k: int|
                    0 <= k < newhp.len() && k != j ==> newhp[k] == 0);
            assert(j != turn || j != m);
            assert(false);
        }
    }
}

/// A copy of the running hit-point list.
fn clone_hp(hp: &Vec<u64>) -> (r: Vec<u64>)
    ensures
        r@ == hp@,
{
    let mut out: Vec<u64> = Vec::new();
    let mut i: usize = 0;
    while i < hp.len()
        invariant
            0 <= i <= hp@.len(),
            out@ == hp@.take(i as int),
        decreases hp@.len() - i,
    {
        out.push(hp[i]);
        proof {
            assert(out@ =~= hp@.take(i + 1));
        }
        i = i + 1;
    }
    proof {
        assert(hp@.take(hp@.len() as int) =~= hp@);
    }
    out
}

/// Resolves one turn with the dice roll handed in as a plain value, so
/// the whole outcome is a function of the arguments.
pub fn battle_turn_with_roll(
    range: &Vec<u8>,
    info: &Vec<PlayerInfo>,
    hp: &Vec<u64>,
    turn: usize,
    dice: u8,
    outbox: &mut Outbox,
) -> (r: TurnResultMsg)
    requires
        hp@.len() == info@.len(),
        turn < info@.len(),
        hp@[turn as int] > 0,
        exists|j: int| 0 <= j < hp@.len() && j != turn && hp@[j] > 0,
    ensures
        turn_outcome_ok(range@, info@, hp@, turn as int, dice, r, old(outbox)@, final(outbox)@),
{
    proof {
        lemma_next_live_other(hp@, turn as int);
    }
    let p2 = next_alive(hp, turn);
    let mut out_hp = clone_hp(hp);
    outbox.emit(ClientAction::PlayerAction(info[turn].name.clone(), info[p2].name.clone()));
    let attack = get_cluster_reducer(range, dice);
    let dmg = apply_rule(attack, info[turn].power);
    let new_hp = process_dmg(&hp[p2], &dmg);
    match attack {
        AttackType::Undefined => (),
        _ => {
            outbox.emit(ClientAction::AttackResult(attack, dmg));
        },
    }
    out_hp.set(p2, new_hp);
    let next_turn = if out_hp[p2] > 0 {
        p2
    } else {
        proof {
            assert(out_hp@[turn as int] > 0);
        }
        next_alive(&out_hp, p2)
    };
    let winner = if is_winner(&out_hp, turn) {
        Some((turn, out_hp[turn]))
    } else {
        None
    };
    TurnResultMsg { hp: out_hp, next_turn, winner }
}

/// Resolves one turn of the contest: rolls the dice once and resolves
/// the rest deterministically from the roll.
pub fn battle_turn(
    range: &Vec<u8>,
    info: &Vec<PlayerInfo>,
    hp: &Vec<u64>,
    turn: usize,
    outbox: &mut Outbox,
) -> (r: TurnResultMsg)
    requires
        hp@.len() == info@.len(),
        turn < info@.len(),
        hp@[turn as int] > 0,
        exists|j: int| 0 <= j < hp@.len() && j != turn && hp@[j] > 0,
    ensures
        exists|dice: u8|
            dice < 100 && turn_outcome_ok(
                range@,
                info@,
                hp@,
                turn as int,
                dice,
                r,
                old(outbox)@,
                final(outbox)@,
            ),
{
    let dice = roll_dice();
    battle_turn_with_roll(range, info, hp, turn, dice, outbox)
}

/// Gathers participants: while fewer have been gathered than the target,
/// asks the transport for the next one and reports that more are needed;
/// once the target is reached, reports ready with no narration.
pub fn battle_warm_up(players: usize, current_players: usize, outbox: &mut Outbox) -> (r: bool)
    ensures
        r == (current_players >= players),
        current_players < players ==> final(outbox)@ == old(outbox)@.push(
            ClientAction::AskPlayerInfo((current_players + 1) as usize),
        ),
        current_players >= players ==> final(outbox)@ == old(outbox)@,
{
    if current_players < players {
        outbox.emit(ClientAction::AskPlayerInfo(current_players + 1));
        false
    } else {
        true
    }
}

/// Announces the contest: the start event, then the participant names.
pub fn battle_announce(player_names: Vec<String>, outbox: &mut Outbox)
    ensures
        final(outbox)@ == old(outbox)@.push(ClientAction::Start).push(
            ClientAction::AnnouncePlayers(player_names),
        ),
{
    outbox.emit(ClientAction::Start);
    outbox.emit(ClientAction::AnnouncePlayers(player_names));
}

/// Declares the winner with its remaining hit points.
pub fn battle_over(player_name: String, hp: u64, outbox: &mut Outbox)
    ensures
        final(outbox)@ == old(outbox)@.push(ClientAction::Winner(player_name, hp)),
{
    outbox.emit(ClientAction::Winner(player_name, hp));
}

} // verus!
