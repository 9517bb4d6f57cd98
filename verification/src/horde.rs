use vstd::prelude::*;

use crate::rules::{spawned_enemy_hp, spec_spawned_enemy_hp};
use crate::selection::{first_contact, kept, lemma_kept_all, lemma_kept_len_by_flags, retain_flagged};

verus! {

/// An enemy: the hit points that the rules count, and a body (position,
/// flash timer, ...) that the rules carry along without reading.
pub struct Enemy<B> {
    pub body: B,
    pub hp: i32,
}

/// What a round of bullet hits leaves behind: the bullets that struck an
/// enemy and the enemies that were defeated, each in their original order.
pub struct Collisions<Bullet, Body> {
    pub spent: Vec<Bullet>,
    pub defeated: Vec<Enemy<Body>>,
}

/// Whether each enemy still has hit points left.
pub open spec fn alive_flags<B>(s: Seq<Enemy<B>>) -> Seq<bool> {
    Seq::new(s.len(), |i: int| s[i].hp > 0)
}

/// How many of the bullets in `targets` strike enemy `j`.
pub open spec fn hits_on(targets: Seq<Option<usize>>, j: int) -> int
    decreases targets.len(),
{
    if targets.len() == 0 {
        0
    } else {
        hits_on(targets.drop_last(), j) + if targets.last() matches Some(t) && t == j {
            1int
        } else {
            0int
        }
    }
}

/// The enemies after each bullet in `targets` has taken one hit point from
/// the enemy it struck.
pub open spec fn struck<B>(s: Seq<Enemy<B>>, targets: Seq<Option<usize>>) -> Seq<Enemy<B>> {
    Seq::new(s.len(), |j: int| Enemy { body: s[j].body, hp: (s[j].hp - hits_on(targets, j)) as i32 })
}

/// Whether each bullet struck nothing.
pub open spec fn miss_flags(targets: Seq<Option<usize>>) -> Seq<bool> {
    Seq::new(targets.len(), |i: int| targets[i] is None)
}

/// Every target names an enemy of a horde of `n`, and no enemy loses more
/// hit points than an `i32` can count down.
pub open spec fn strike_fits<B>(s: Seq<Enemy<B>>, targets: Seq<Option<usize>>) -> bool {
    &&& forall|i: int| 0 <= i < targets.len() ==> (#[trigger] targets[i] matches Some(j) ==> j < s.len())
    &&& forall|j: int| 0 <= j < s.len() ==> s[j].hp - hits_on(targets, j) >= i32::MIN
}

/// `r` is the index of the first raised flag of `s`, or `None` when no flag
/// is raised.
pub open spec fn is_first_contact(s: Seq<bool>, r: Option<usize>) -> bool {
    match r {
        Some(j) => j < s.len() && s[j as int] && forall|k: int| 0 <= k < j ==> !s[k],
        None => forall|k: int| 0 <= k < s.len() ==> !s[k],
    }
}

/// Counting the hits of a prefix never gives more than counting them all.
pub proof fn lemma_hits_prefix(targets: Seq<Option<usize>>, i: int, j: int)
    requires
        0 <= i <= targets.len(),
    ensures
        0 <= hits_on(targets.take(i), j) <= hits_on(targets, j),
    decreases targets.len() - i,
{
    if i < targets.len() {
        lemma_hits_prefix(targets, i + 1, j);
        assert(targets.take(i + 1).drop_last() =~= targets.take(i));
        lemma_hits_nonneg(targets.take(i), j);
    } else {
        assert(targets.take(i) =~= targets);
        lemma_hits_nonneg(targets, j);
    }
}

/// A hit count is never negative.
pub proof fn lemma_hits_nonneg(targets: Seq<Option<usize>>, j: int)
    ensures
        hits_on(targets, j) >= 0,
    decreases targets.len(),
{
    if targets.len() > 0 {
        lemma_hits_nonneg(targets.drop_last(), j);
    }
}

/// Adds an enemy with `body` and the hit points that wave `wave` gives.
pub fn spawn_enemy<B>(enemies: &mut Vec<Enemy<B>>, body: B, wave: i32)
    ensures
        final(enemies)@.len() == old(enemies)@.len() + 1,
        final(enemies)@.take(old(enemies)@.len() as int) == old(enemies)@,
        final(enemies)@.last().body == body,
        final(enemies)@.last().hp == spec_spawned_enemy_hp(wave as int),
{
    let hp = spawned_enemy_hp(wave);
    enemies.push(Enemy { body, hp });
    assert(enemies@.take(old(enemies)@.len() as int) =~= old(enemies)@);
}

/// For each bullet, the first enemy that it touches, given for each bullet
/// which enemies it touches.
pub fn bullet_targets(contacts: &Vec<Vec<bool>>) -> (targets: Vec<Option<usize>>)
    ensures
        targets@.len() == contacts@.len(),
        forall|i: int|
            0 <= i < contacts@.len() ==> is_first_contact(
                #[trigger] contacts@[i]@,
                targets@[i],
            ),
{
    let mut targets: Vec<Option<usize>> = Vec::new();
    let mut i: usize = 0;
    while i < contacts.len()
        invariant
            i <= contacts@.len(),
            targets@.len() == i,
            forall|k: int| 0 <= k < i ==> is_first_contact(#[trigger] contacts@[k]@, targets@[k]),
        decreases contacts@.len() - i,
    {
        let t = first_contact(&contacts[i]);
        targets.push(t);
        i = i + 1;
    }
    targets
}

/// For each bullet, whether it struck nothing and flies on.
pub fn missed(targets: &Vec<Option<usize>>) -> (keep: Vec<bool>)
    ensures
        keep@ == miss_flags(targets@),
{
    let mut keep: Vec<bool> = Vec::new();
    let mut i: usize = 0;
    while i < targets.len()
        invariant
            i <= targets@.len(),
            keep@.len() == i,
            forall|k: int| 0 <= k < i ==> #[trigger] keep@[k] == (targets@[k] is None),
        decreases targets@.len() - i,
    {
        keep.push(targets[i].is_none());
        i = i + 1;
    }
    assert(keep@ =~= miss_flags(targets@));
    keep
}

/// Each bullet that struck an enemy takes one hit point from it; bodies
/// and order are unchanged.
pub fn strike<B>(enemies: &mut Vec<Enemy<B>>, targets: &Vec<Option<usize>>)
    requires
        strike_fits(old(enemies)@, targets@),
    ensures
        final(enemies)@ == struck(old(enemies)@, targets@),
{
    let ghost orig = enemies@;
    let mut i: usize = 0;
    while i < targets.len()
        invariant
            i <= targets@.len(),
            enemies@.len() == orig.len(),
            forall|k: int|
                0 <= k < targets@.len() ==> (#[trigger] targets@[k] matches Some(j) ==> j
                    < orig.len()),
            forall|j: int|
                0 <= j < orig.len() ==> orig[j].hp - hits_on(targets@, j) >= i32::MIN,
            forall|j: int|
                0 <= j < orig.len() ==> (#[trigger] enemies@[j]).body == orig[j].body
                    && enemies@[j].hp == orig[j].hp - hits_on(targets@.take(i as int), j),
        decreases targets@.len() - i,
    {
        proof {
            assert(targets@.take(i + 1).drop_last() =~= targets@.take(i as int));
        }
        match targets[i] {
            Some(j) => {
                proof {
                    lemma_hits_prefix(targets@, i + 1, j as int);
                }
                let hp = enemies[j].hp;
                enemies[j].hp = hp - 1;
            },
            None => {},
        }
        proof {
            let t = targets@;
            assert forall|k: int| 0 <= k < orig.len() implies (#[trigger] enemies@[k]).body
                == orig[k].body && enemies@[k].hp == orig[k].hp - hits_on(t.take(i + 1), k) by {
                assert(t.take(i + 1).last() == t[i as int]);
            }
        }
        i = i + 1;
    }
    proof {
        assert(targets@.take(targets@.len() as int) =~= targets@);
        assert(enemies@ =~= struck(orig, targets@));
    }
}

/// Takes out, in order, the enemies without hit points left, and hands them
/// back in order; the others stay, in order.
pub fn remove_defeated<B>(enemies: &mut Vec<Enemy<B>>) -> (defeated: Vec<Enemy<B>>)
    ensures
        final(enemies)@ == kept(old(enemies)@, alive_flags(old(enemies)@), true),
        defeated@ == kept(old(enemies)@, alive_flags(old(enemies)@), false),
        final(enemies)@.len() + defeated@.len() == old(enemies)@.len(),
        forall|k: int| 0 <= k < final(enemies)@.len() ==> #[trigger] final(enemies)@[k].hp > 0,
        forall|k: int| 0 <= k < defeated@.len() ==> #[trigger] defeated@[k].hp <= 0,
{
    let ghost orig = enemies@;
    let mut alive: Vec<bool> = Vec::new();
    let mut i: usize = 0;
    while i < enemies.len()
        invariant
            enemies@ == orig,
            i <= orig.len(),
            alive@ =~= alive_flags(orig).take(i as int),
        decreases orig.len() - i,
    {
        alive.push(enemies[i].hp > 0);
        i = i + 1;
    }
    assert(alive@ =~= alive_flags(orig));
    let defeated = retain_flagged(enemies, &alive);
    proof {
        let flags = alive_flags(orig);
        let up = |e: Enemy<B>| e.hp > 0;
        let down = |e: Enemy<B>| e.hp <= 0;
        lemma_kept_all(orig, flags, true, up);
        lemma_kept_all(orig, flags, false, down);
        assert forall|k: int| 0 <= k < enemies@.len() implies #[trigger] enemies@[k].hp > 0 by {
            assert(up(kept(orig, flags, true)[k]));
        }
        assert forall|k: int| 0 <= k < defeated@.len() implies #[trigger] defeated@[k].hp <= 0 by {
            assert(down(kept(orig, flags, false)[k]));
        }
    }
    defeated
}

/// Resolves the bullets' hits on the enemies: each bullet in `targets`
/// that struck an enemy takes one hit point from it and is spent; then the
/// enemies without hit points left are taken out. Bullets and enemies that
/// remain keep their order.
pub fn resolve_collisions<Bullet, Body>(
    bullets: &mut Vec<Bullet>,
    enemies: &mut Vec<Enemy<Body>>,
    targets: &Vec<Option<usize>>,
) -> (out: Collisions<Bullet, Body>)
    requires
        old(bullets)@.len() == targets@.len(),
        strike_fits(old(enemies)@, targets@),
    ensures
        final(bullets)@ == kept(old(bullets)@, miss_flags(targets@), true),
        out.spent@ == kept(old(bullets)@, miss_flags(targets@), false),
        final(enemies)@ == kept(
            struck(old(enemies)@, targets@),
            alive_flags(struck(old(enemies)@, targets@)),
            true,
        ),
        out.defeated@ == kept(
            struck(old(enemies)@, targets@),
            alive_flags(struck(old(enemies)@, targets@)),
            false,
        ),
        final(enemies)@.len() + out.defeated@.len() == old(enemies)@.len(),
        final(bullets)@.len() + out.spent@.len() == old(bullets)@.len(),
        forall|k: int| 0 <= k < final(enemies)@.len() ==> #[trigger] final(enemies)@[k].hp > 0,
        forall|k: int| 0 <= k < out.defeated@.len() ==> #[trigger] out.defeated@[k].hp <= 0,
{
    strike(enemies, targets);
    let keep = missed(targets);
    let spent = retain_flagged(bullets, &keep);
    let defeated = remove_defeated(enemies);
    Collisions { spent, defeated }
}

/// The hit points of all the enemies together.
pub open spec fn total_hp<B>(s: Seq<Enemy<B>>) -> int
    decreases s.len(),
{
    if s.len() == 0 {
        0
    } else {
        total_hp(s.drop_last()) + s.last().hp
    }
}

/// The hits that the bullets in `targets` deal to the first `n` enemies.
pub open spec fn hits_sum(targets: Seq<Option<usize>>, n: int) -> int
    decreases n,
{
    if n <= 0 {
        0
    } else {
        hits_sum(targets, n - 1) + hits_on(targets, n - 1)
    }
}

/// One more bullet adds to the hits on the first `n` enemies one hit when
/// it struck one of them, none otherwise.
proof fn lemma_hits_sum_push(targets: Seq<Option<usize>>, x: Option<usize>, n: int)
    requires
        n >= 0,
    ensures
        hits_sum(targets.push(x), n) == hits_sum(targets, n) + if x matches Some(t) && t < n {
            1int
        } else {
            0int
        },
    decreases n,
{
    assert(targets.push(x).drop_last() =~= targets);
    if n > 0 {
        lemma_hits_sum_push(targets, x, n - 1);
    }
}

/// The hits on the first `n` enemies count every bullet that struck one of
/// them, once.
proof fn lemma_hits_sum_counts(targets: Seq<Option<usize>>, n: int)
    requires
        n >= 0,
        forall|i: int| 0 <= i < targets.len() ==> (#[trigger] targets[i] matches Some(j) ==> j < n),
    ensures
        hits_sum(targets, n) == kept(targets, miss_flags(targets), false).len(),
    decreases targets.len(),
{
    if targets.len() == 0 {
        assert(hits_sum(targets, n) == 0) by {
            lemma_hits_sum_empty(targets, n);
        }
    } else {
        let rest = targets.drop_last();
        assert(rest.push(targets.last()) =~= targets);
        assert(miss_flags(targets).take(targets.len() - 1) =~= miss_flags(rest));
        assert forall|i: int| 0 <= i < rest.len() implies (#[trigger] rest[i] matches Some(j) ==> j
            < n) by {
            assert(rest[i] == targets[i]);
        }
        lemma_hits_sum_counts(rest, n);
        lemma_hits_sum_push(rest, targets.last(), n);
    }
}

/// No bullet means no hits.
proof fn lemma_hits_sum_empty(targets: Seq<Option<usize>>, n: int)
    requires
        targets.len() == 0,
    ensures
        hits_sum(targets, n) == 0,
    decreases n,
{
    if n > 0 {
        lemma_hits_sum_empty(targets, n - 1);
    }
}

/// Taking the hits lowers the enemies' total hit points by the hits dealt.
proof fn lemma_struck_total<B>(s: Seq<Enemy<B>>, targets: Seq<Option<usize>>)
    requires
        forall|j: int| 0 <= j < s.len() ==> s[j].hp - hits_on(targets, j) >= i32::MIN,
    ensures
        total_hp(struck(s, targets)) == total_hp(s) - hits_sum(targets, s.len() as int),
    decreases s.len(),
{
    if s.len() > 0 {
        let rest = s.drop_last();
        assert(struck(s, targets).drop_last() =~= struck(rest, targets));
        lemma_hits_nonneg(targets, s.len() - 1);
        lemma_struck_total(rest, targets);
    }
}

/// Bullet hits neither create nor lose hit points: the enemies lose, all
/// together, exactly one hit point for every bullet that is spent.
pub proof fn lemma_hits_conserved<Bullet, Body>(
    bullets: Seq<Bullet>,
    enemies: Seq<Enemy<Body>>,
    targets: Seq<Option<usize>>,
)
    requires
        bullets.len() == targets.len(),
        strike_fits(enemies, targets),
    ensures
        total_hp(enemies) - total_hp(struck(enemies, targets)) == kept(
            bullets,
            miss_flags(targets),
            false,
        ).len(),
{
    lemma_struck_total(enemies, targets);
    lemma_hits_sum_counts(targets, enemies.len() as int);
    lemma_kept_len_by_flags(bullets, targets, miss_flags(targets), false);
}

/// A bullet is spent exactly when it touches at least one enemy.
pub proof fn lemma_spent_iff_touching(contacts: Seq<Seq<bool>>, targets: Seq<Option<usize>>)
    requires
        targets.len() == contacts.len(),
        forall|i: int| 0 <= i < contacts.len() ==> is_first_contact(#[trigger] contacts[i], targets[i]),
    ensures
        forall|i: int|
            0 <= i < contacts.len() ==> (#[trigger] miss_flags(targets)[i] <==> forall|k: int|
                0 <= k < contacts[i].len() ==> !contacts[i][k]),
{
    assert forall|i: int| 0 <= i < contacts.len() implies (#[trigger] miss_flags(targets)[i]
        <==> forall|k: int| 0 <= k < contacts[i].len() ==> !contacts[i][k]) by {
        assert(is_first_contact(contacts[i], targets[i]));
        if let Some(j) = targets[i] {
            assert(contacts[i][j as int]);
        }
    }
}

/// A row of flags has exactly one first contact; appending a flag keeps a
/// contact already found, and otherwise the new flag decides: a raised one
/// becomes the contact, a lowered one leaves none.
pub proof fn lemma_first_contact_grows(s: Seq<bool>, b: bool, r1: Option<usize>, r2: Option<usize>)
    requires
        s.len() < usize::MAX,
    ensures
        is_first_contact(s, r1) && is_first_contact(s, r2) ==> r1 == r2,
        forall|j: usize| is_first_contact(s, Some(j)) ==> is_first_contact(s.push(b), Some(j)),
        is_first_contact(s, None) ==> is_first_contact(
            s.push(b),
            if b {
                Some(s.len() as usize)
            } else {
                None
            },
        ),
{
    if is_first_contact(s, r1) && is_first_contact(s, r2) {
        match (r1, r2) {
            (Some(a), Some(c)) => {
                if a < c {
                    assert(!s[a as int]);
                } else if c < a {
                    assert(!s[c as int]);
                }
            },
            (Some(a), None) => {
                assert(!s[a as int]);
            },
            (None, Some(c)) => {
                assert(!s[c as int]);
            },
            (None, None) => {},
        }
    }
    assert forall|j: usize| is_first_contact(s, Some(j)) implies is_first_contact(
        s.push(b),
        Some(j),
    ) by {
        assert(s.push(b)[j as int] == s[j as int]);
        assert forall|k: int| 0 <= k < j implies !s.push(b)[k] by {
            assert(s.push(b)[k] == s[k]);
        }
    }
    if is_first_contact(s, None) {
        assert forall|k: int| 0 <= k < s.len() implies !s.push(b)[k] by {
            assert(s.push(b)[k] == s[k]);
        }
    }
}

/// One more bullet adds one hit to the enemy it struck and none to any
/// other; no bullets, no hits.
pub proof fn lemma_hits_on_push(targets: Seq<Option<usize>>, x: Option<usize>, j: usize)
    ensures
        hits_on(Seq::<Option<usize>>::empty(), j as int) == 0,
        x == Some(j) ==> hits_on(targets.push(x), j as int) == hits_on(targets, j as int) + 1,
        x != Some(j) ==> hits_on(targets.push(x), j as int) == hits_on(targets, j as int),
{
    assert(targets.push(x).drop_last() =~= targets);
}

/// Striking keeps every body and the number and order of enemies, and takes
/// from each enemy exactly the hits aimed at it.
pub proof fn lemma_struck_keeps_bodies<B>(s: Seq<Enemy<B>>, targets: Seq<Option<usize>>)
    requires
        strike_fits(s, targets),
    ensures
        struck(s, targets).len() == s.len(),
        forall|j: int|
            0 <= j < s.len() ==> (#[trigger] struck(s, targets)[j]).body == s[j].body
                && struck(s, targets)[j].hp + hits_on(targets, j) == s[j].hp,
        struck(s, Seq::empty()) == s,
{
    assert(struck(s, Seq::empty()) =~= s);
    assert forall|j: int| 0 <= j < s.len() implies (#[trigger] struck(s, targets)[j]).body
        == s[j].body && struck(s, targets)[j].hp + hits_on(targets, j) == s[j].hp by {
        lemma_hits_nonneg(targets, j);
    }
}

} // verus!
