//! Resolving collisions between the ship, its missiles and the enemies.
//!
//! Two passes, in this order. First every enemy that touches the ship is
//! removed and costs a life. Then the enemies that are left are taken one by
//! one in their order: one that stands on the floor is removed and costs a
//! life; otherwise the oldest missile that touches it is spent on it and both
//! are removed. A missile is spent once, so it never takes two enemies.

use vstd::prelude::*;
use crate::actors::Ennemi;
use crate::actors::Missile;
use crate::entity::ElementGraphique;

verus! {

/// The enemies that do not touch the ship.
pub open spec fn clear_of(ship: ElementGraphique) -> spec_fn(Ennemi) -> bool {
    |e: Ennemi| !e.parent.overlaps(ship)
}

/// The enemies left once those that touch the ship are gone.
pub open spec fn after_ramming(enemies: Seq<Ennemi>, ship: ElementGraphique) -> Seq<Ennemi> {
    enemies.filter(clear_of(ship))
}

/// No missile touches the target.
pub open spec fn untouched(shots: Seq<Missile>, target: ElementGraphique) -> bool {
    forall|k: int| 0 <= k < shots.len() ==> !(#[trigger] shots[k]).parent.overlaps(target)
}

/// Missile `j` touches the target and no older missile does.
pub open spec fn is_first_hit(shots: Seq<Missile>, target: ElementGraphique, j: int) -> bool {
    &&& 0 <= j < shots.len()
    &&& shots[j].parent.overlaps(target)
    &&& forall|k: int| 0 <= k < j ==> !(#[trigger] shots[k]).parent.overlaps(target)
}

/// What the second pass has decided so far: the enemies it keeps, the
/// missiles still in flight, and the lives lost to enemies on the floor.
#[verifier::ext_equal]
pub struct Outcome {
    pub enemies: Seq<Ennemi>,
    pub shots: Seq<Missile>,
    pub lost: nat,
}

/// The second pass taking one more enemy. On the floor it costs a life and
/// no missile. Else the oldest missile that touches it goes with it. Else it
/// stays.
pub open spec fn shot_step(o: Outcome, e: Ennemi, floor: int) -> Outcome {
    if e.parent.y == floor {
        Outcome { lost: o.lost + 1, ..o }
    } else if untouched(o.shots, e.parent) {
        Outcome { enemies: o.enemies.push(e), ..o }
    } else {
        Outcome { shots: o.shots.remove(choose|j: int| is_first_hit(o.shots, e.parent, j)), ..o }
    }
}

/// The second pass over all the enemies, first to last.
pub open spec fn after_shots(enemies: Seq<Ennemi>, shots: Seq<Missile>, floor: int) -> Outcome
    decreases enemies.len(),
{
    if enemies.len() == 0 {
        Outcome { enemies: Seq::empty(), shots, lost: 0 }
    } else {
        shot_step(after_shots(enemies.drop_last(), shots, floor), enemies.last(), floor)
    }
}

/// The lives left after `lost` of them are taken. The count may fall below
/// zero, which is how a lost game shows; it stops at the end of its range.
pub open spec fn lives_after(vies: i32, lost: nat) -> i32 {
    if vies - lost < i32::MIN {
        i32::MIN
    } else {
        (vies - lost) as i32
    }
}

/// Only one missile can be the oldest that touches a target.
pub proof fn lemma_first_hit_unique(shots: Seq<Missile>, target: ElementGraphique, a: int, b: int)
    requires
        is_first_hit(shots, target, a),
        is_first_hit(shots, target, b),
    ensures
        a == b,
{
    if a < b {
        assert(!shots[a].parent.overlaps(target));
    }
    if b < a {
        assert(!shots[b].parent.overlaps(target));
    }
}

/// Filtering one element more either appends it or changes nothing.
pub(crate) proof fn lemma_filter_next<A>(s: Seq<A>, keep: spec_fn(A) -> bool, i: int)
    requires
        0 <= i < s.len(),
    ensures
        s.take(i + 1).filter(keep) == if keep(s[i]) {
            s.take(i).filter(keep).push(s[i])
        } else {
            s.take(i).filter(keep)
        },
{
    reveal(Seq::filter);
    assert(s.take(i + 1).drop_last() =~= s.take(i));
}

/// Filtering nothing gives nothing.
pub(crate) proof fn lemma_filter_none<A>(s: Seq<A>, keep: spec_fn(A) -> bool)
    ensures
        s.take(0).filter(keep) == Seq::<A>::empty(),
{
    reveal(Seq::filter);
}

/// The second pass over one enemy more is one step after the pass over
/// those before it.
pub(crate) proof fn lemma_after_shots_next(enemies: Seq<Ennemi>, shots: Seq<Missile>, floor: int, i: int)
    requires
        0 <= i < enemies.len(),
    ensures
        after_shots(enemies.take(i + 1), shots, floor) == shot_step(
            after_shots(enemies.take(i), shots, floor),
            enemies[i],
            floor,
        ),
{
    assert(enemies.take(i + 1).drop_last() =~= enemies.take(i));
}

/// Index of the oldest missile that touches `target`, if any does.
pub fn first_hit(shots: &Vec<Missile>, target: &ElementGraphique) -> (r: Option<usize>)
    ensures
        match r {
            Some(j) => is_first_hit(shots@, *target, j as int),
            None => untouched(shots@, *target),
        },
{
    let n: usize = shots.len();
    let mut j: usize = 0;
    while j < n
        invariant
            n == shots@.len(),
            0 <= j <= n,
            forall|k: int| 0 <= k < j ==> !(#[trigger] shots@[k]).parent.overlaps(*target),
        decreases n - j,
    {
        if shots[j].parent.collision(target) {
            return Some(j);
        }
        j = j + 1;
    }
    None
}

/// First pass: keeps the enemies that do not touch the ship, and counts the
/// others.
pub fn ram(enemies: &Vec<Ennemi>, ship: &ElementGraphique) -> (r: (Vec<Ennemi>, usize))
    ensures
        r.0@ == after_ramming(enemies@, *ship),
        r.1 == enemies@.len() - r.0@.len(),
{
    let n: usize = enemies.len();
    let mut kept: Vec<Ennemi> = Vec::new();
    let mut lost: usize = 0;
    let mut i: usize = 0;
    proof {
        lemma_filter_none(enemies@, clear_of(*ship));
    }
    while i < n
        invariant
            n == enemies@.len(),
            0 <= i <= n,
            kept@ == enemies@.take(i as int).filter(clear_of(*ship)),
            lost + kept@.len() == i,
        decreases n - i,
    {
        proof {
            lemma_filter_next(enemies@, clear_of(*ship), i as int);
        }
        let e: Ennemi = enemies[i];
        if e.parent.collision(ship) {
            lost = lost + 1;
        } else {
            kept.push(e);
        }
        i = i + 1;
    }
    assert(enemies@.take(n as int) =~= enemies@);
    (kept, lost)
}

/// Second pass: takes the enemies in their order against the floor and the
/// missiles. Gives the enemies that stay and the lives lost; the missiles
/// that were spent are removed from `shots`.
pub fn shoot(enemies: &Vec<Ennemi>, shots: &mut Vec<Missile>, floor: i64) -> (r: (
    Vec<Ennemi>,
    usize,
))
    ensures
        (Outcome { enemies: r.0@, shots: final(shots)@, lost: r.1 as nat }) == after_shots(
            enemies@,
            old(shots)@,
            floor as int,
        ),
        r.1 <= enemies@.len(),
{
    let ghost start = shots@;
    let n: usize = enemies.len();
    let mut kept: Vec<Ennemi> = Vec::new();
    let mut lost: usize = 0;
    let mut i: usize = 0;
    while i < n
        invariant
            n == enemies@.len(),
            0 <= i <= n,
            lost <= i,
            (Outcome { enemies: kept@, shots: shots@, lost: lost as nat }) == after_shots(
                enemies@.take(i as int),
                start,
                floor as int,
            ),
        decreases n - i,
    {
        proof {
            lemma_after_shots_next(enemies@, start, floor as int, i as int);
        }
        let e: Ennemi = enemies[i];
        if e.parent.y == floor {
            lost = lost + 1;
        } else {
            match first_hit(shots, &e.parent) {
                Some(j) => {
                    proof {
                        let chosen = choose|c: int| is_first_hit(shots@, e.parent, c);
                        lemma_first_hit_unique(shots@, e.parent, j as int, chosen);
                    }
                    shots.remove(j);
                },
                None => {
                    kept.push(e);
                },
            }
        }
        i = i + 1;
    }
    assert(enemies@.take(n as int) =~= enemies@);
    (kept, lost)
}

/// Takes `lost` lives from `vies`.
pub fn take_lives(vies: i32, lost: usize) -> (left: i32)
    ensures
        left == lives_after(vies, lost as nat),
{
    let room: u64 = (vies as i64 - i32::MIN as i64) as u64;
    if lost as u64 >= room {
        i32::MIN
    } else {
        (vies as i64 - lost as i64) as i32
    }
}

/// A missile is spent on one enemy only: every enemy that the second pass
/// removes was either on the floor, at the cost of a life, or took one
/// missile of its own with it. So the missiles spent and the lives lost add
/// up to the enemies removed, and no missile appears that was not there.
pub proof fn lemma_one_missile_one_enemy(enemies: Seq<Ennemi>, shots: Seq<Missile>, floor: int)
    ensures
        after_shots(enemies, shots, floor).shots.len() <= shots.len(),
        after_shots(enemies, shots, floor).enemies.len() <= enemies.len(),
        enemies.len() - after_shots(enemies, shots, floor).enemies.len() == after_shots(
            enemies,
            shots,
            floor,
        ).lost + (shots.len() - after_shots(enemies, shots, floor).shots.len()),
    decreases enemies.len(),
{
    if enemies.len() > 0 {
        lemma_one_missile_one_enemy(enemies.drop_last(), shots, floor);
        let before = after_shots(enemies.drop_last(), shots, floor);
        let e = enemies.last();
        if e.parent.y != floor && !untouched(before.shots, e.parent) {
            lemma_some_first_hit(before.shots, e.parent);
        }
    }
}

/// Where some missile touches the target, one of them is the oldest.
pub(crate) proof fn lemma_some_first_hit(shots: Seq<Missile>, target: ElementGraphique)
    requires
        !untouched(shots, target),
    ensures
        is_first_hit(shots, target, choose|j: int| is_first_hit(shots, target, j)),
    decreases shots.len(),
{
    let k = choose|k: int| 0 <= k < shots.len() && (#[trigger] shots[k]).parent.overlaps(target);
    lemma_first_hit_upto(shots, target, k);
}

/// Among the missiles up to one that touches the target, one is the oldest
/// that does.
proof fn lemma_first_hit_upto(shots: Seq<Missile>, target: ElementGraphique, k: int)
    requires
        0 <= k < shots.len(),
        shots[k].parent.overlaps(target),
    ensures
        exists|j: int| is_first_hit(shots, target, j),
    decreases k,
{
    if forall|i: int| 0 <= i < k ==> !(#[trigger] shots[i]).parent.overlaps(target) {
        assert(is_first_hit(shots, target, k));
    } else {
        let i = choose|i: int| 0 <= i < k && (#[trigger] shots[i]).parent.overlaps(target);
        lemma_first_hit_upto(shots, target, i);
    }
}

/// The second pass leaves no collision behind: an enemy that it keeps is
/// not on the floor and touches none of the missiles that are still in
/// flight. Every missile and every enemy that it leaves was there before.
pub proof fn lemma_after_shots_settled(enemies: Seq<Ennemi>, shots: Seq<Missile>, floor: int)
    ensures
        forall|i: int|
            0 <= i < after_shots(enemies, shots, floor).enemies.len() ==> {
                let e = #[trigger] after_shots(enemies, shots, floor).enemies[i];
                &&& e.parent.y != floor
                &&& enemies.contains(e)
                &&& untouched(after_shots(enemies, shots, floor).shots, e.parent)
            },
        forall|j: int|
            0 <= j < after_shots(enemies, shots, floor).shots.len() ==> shots.contains(
                #[trigger] after_shots(enemies, shots, floor).shots[j],
            ),
    decreases enemies.len(),
{
    let out = after_shots(enemies, shots, floor);
    if enemies.len() == 0 {
        assert forall|j: int| 0 <= j < out.shots.len() implies shots.contains(
            #[trigger] out.shots[j],
        ) by {
            assert(shots[j] == out.shots[j]);
        }
    } else {
        let rest = enemies.drop_last();
        let e = enemies.last();
        let before = after_shots(rest, shots, floor);
        lemma_after_shots_settled(rest, shots, floor);
        assert(enemies[enemies.len() - 1] == e);
        assert forall|i: int| 0 <= i < before.enemies.len() implies enemies.contains(
            #[trigger] before.enemies[i],
        ) by {
            let old_e = before.enemies[i];
            assert(rest.contains(old_e));
            let at = choose|at: int| 0 <= at < rest.len() && rest[at] == old_e;
            assert(enemies[at] == old_e);
        }
        if e.parent.y == floor {
        } else if untouched(before.shots, e.parent) {
            assert forall|i: int| 0 <= i < out.enemies.len() implies {
                let kept = #[trigger] out.enemies[i];
                &&& kept.parent.y != floor
                &&& enemies.contains(kept)
                &&& untouched(out.shots, kept.parent)
            } by {
                if i < before.enemies.len() {
                    assert(out.enemies[i] == before.enemies[i]);
                }
            }
        } else {
            lemma_some_first_hit(before.shots, e.parent);
            let j = choose|j: int| is_first_hit(before.shots, e.parent, j);
            assert forall|m: int| 0 <= m < out.shots.len() implies shots.contains(
                #[trigger] out.shots[m],
            ) by {
                let from = if m < j {
                    m
                } else {
                    m + 1
                };
                assert(out.shots[m] == before.shots[from]);
            }
            assert forall|i: int| 0 <= i < out.enemies.len() implies {
                let kept = #[trigger] out.enemies[i];
                &&& kept.parent.y != floor
                &&& enemies.contains(kept)
                &&& untouched(out.shots, kept.parent)
            } by {
                let kept = out.enemies[i];
                assert(kept == before.enemies[i]);
                assert(untouched(before.shots, kept.parent));
                assert forall|m: int| 0 <= m < out.shots.len() implies !(
                #[trigger] out.shots[m]).parent.overlaps(kept.parent) by {
                    let from = if m < j {
                        m
                    } else {
                        m + 1
                    };
                    assert(out.shots[m] == before.shots[from]);
                }
            }
        }
    }
}

/// The first pass leaves no enemy that touches the ship, and every enemy
/// that it leaves was there before.
pub proof fn lemma_after_ramming_settled(enemies: Seq<Ennemi>, ship: ElementGraphique)
    ensures
        after_ramming(enemies, ship).len() <= enemies.len(),
        forall|i: int|
            0 <= i < after_ramming(enemies, ship).len() ==> {
                let e = #[trigger] after_ramming(enemies, ship)[i];
                !e.parent.overlaps(ship) && enemies.contains(e)
            },
{
    enemies.lemma_filter_len(clear_of(ship));
    let out = after_ramming(enemies, ship);
    assert forall|i: int| 0 <= i < out.len() implies {
        let e = #[trigger] out[i];
        !e.parent.overlaps(ship) && enemies.contains(e)
    } by {
        enemies.lemma_filter_pred(clear_of(ship), i);
        enemies.lemma_filter_contains_rev(clear_of(ship), out[i]);
    }
}

} // verus!
