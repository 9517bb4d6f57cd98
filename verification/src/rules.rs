use vstd::prelude::*;

verus! {

/// Width of the play field, in pixels.
pub const SCREEN_WIDTH: i32 = 1024;

/// Height of the play field, in pixels.
pub const SCREEN_HEIGHT: i32 = 768;

/// Hit points the player starts with, and the most the player can have.
pub const PLAYER_MAX_HP: i32 = 5;

/// How far outside the screen edge new enemies appear, in pixels.
pub const SPAWN_MARGIN: i32 = 30;

/// Hit points of an enemy spawned in the first waves.
pub const ENEMY_HP: i32 = 2;

/// Points scored for each enemy defeated.
pub const KILL_SCORE: i32 = 10;

/// Most enemies that one spawn brings in.
pub const MAX_SPAWN_GROUP: i32 = 8;

/// Sparks left behind by a bullet that expires or leaves the screen.
pub const FADE_SPARKS: usize = 3;

/// Sparks thrown by a bullet that strikes an enemy.
pub const HIT_SPARKS: usize = 5;

/// Sparks thrown by a defeated enemy.
pub const DEATH_SPARKS: usize = 15;

/// Sparks thrown when the player takes damage.
pub const HURT_SPARKS: usize = 8;

/// Distance between two lines of the background grid, in pixels.
pub const GRID_STEP: i32 = 64;

/// Division rounding toward zero, as Rust's `/` does on signed integers.
pub open spec fn trunc_div(a: int, d: int) -> int
    recommends
        d > 0,
{
    if a >= 0 {
        a / d
    } else {
        -((-a) / d)
    }
}

/// Kills that wave `wave` asks for before the next wave begins.
pub open spec fn spec_wave_kill_target(wave: int) -> int {
    5 + 3 * wave
}

/// Number of enemies that one spawn brings in during wave `wave`.
pub open spec fn spec_spawn_count(wave: int) -> int {
    let c = 1 + trunc_div(wave, 2);
    if c < MAX_SPAWN_GROUP {
        c
    } else {
        MAX_SPAWN_GROUP as int
    }
}

/// Hit points of an enemy spawned during wave `wave`.
pub open spec fn spec_spawned_enemy_hp(wave: int) -> int {
    ENEMY_HP + trunc_div(wave, 3)
}

/// `wave - 1`, held at the least `i32` rather than going below it.
pub open spec fn spec_wave_before(wave: int) -> int {
    if wave == i32::MIN {
        wave
    } else {
        wave - 1
    }
}

/// Hit points that a full health bar stands for during wave `wave`.
pub open spec fn spec_hp_bar_capacity(wave: int) -> int {
    let c = ENEMY_HP + trunc_div(spec_wave_before(wave), 3);
    if c > 1 {
        c
    } else {
        1
    }
}

/// Every wave asks for more kills than any wave before it.
pub proof fn lemma_kill_target_grows(earlier: int, later: int)
    requires
        earlier < later,
    ensures
        spec_wave_kill_target(earlier) < spec_wave_kill_target(later),
{
}

/// As the waves go on, spawn groups never shrink and never pass the cap,
/// and newly spawned enemies never get fewer hit points.
pub proof fn lemma_spawn_scaling(earlier: int, later: int)
    requires
        earlier <= later,
    ensures
        spec_spawn_count(earlier) <= spec_spawn_count(later),
        spec_spawn_count(later) <= MAX_SPAWN_GROUP,
        spec_spawned_enemy_hp(earlier) <= spec_spawned_enemy_hp(later),
{
}

/// From the first wave on, every spawn brings at least one enemy; the group
/// grows by one every second wave until it reaches the cap, and enemy hit
/// points grow by one every third wave.
pub proof fn lemma_spawn_growth(wave: int)
    requires
        wave >= 1,
    ensures
        spec_spawn_count(wave) >= 1,
        spec_spawned_enemy_hp(wave) >= ENEMY_HP,
        spec_spawned_enemy_hp(wave + 3) == spec_spawned_enemy_hp(wave) + 1,
        spec_spawn_count(wave) < MAX_SPAWN_GROUP ==> spec_spawn_count(wave + 2)
            == spec_spawn_count(wave) + 1,
{
}

/// A full health bar never stands for fewer hit points than one.
pub proof fn lemma_hp_bar_positive(wave: int)
    ensures
        spec_hp_bar_capacity(wave) >= 1,
{
}

/// Rounding toward zero: for a positive divisor the quotient of a
/// non-negative number is the largest multiple that fits, and negating the
/// dividend negates the quotient.
pub proof fn lemma_trunc_div_rounds_toward_zero(a: int, d: int)
    requires
        d > 0,
    ensures
        a >= 0 ==> 0 <= d * trunc_div(a, d) <= a < d * (trunc_div(a, d) + 1),
        trunc_div(-a, d) == -trunc_div(a, d),
{
    if a >= 0 {
        vstd::arithmetic::div_mod::lemma_fundamental_div_mod(a, d);
        vstd::arithmetic::div_mod::lemma_mod_bound(a, d);
        vstd::arithmetic::div_mod::lemma_div_pos_is_pos(a, d);
        let q = a / d;
        let r = a % d;
        assert(0 <= d * q <= a < d * (q + 1)) by (nonlinear_arith)
            requires
                a == d * q + r,
                0 <= r < d,
                q >= 0,
                d > 0,
        ;
    }
    if a == 0 {
        assert(trunc_div(0, d) == 0);
    }
}

/// The first wave asks for eight kills, and each wave asks for exactly three
/// more than the wave before it.
pub proof fn lemma_kill_target_steps(wave: int)
    ensures
        spec_wave_kill_target(1) == 8,
        spec_wave_kill_target(wave + 1) == spec_wave_kill_target(wave) + 3,
{
}

/// From wave zero on, an enemy spawned in wave `wave` has one more hit point
/// than the base for every three full waves passed: `3 * (hp - base)` is the
/// largest multiple of three not above `wave`.
pub proof fn lemma_spawned_hp_by_thirds(wave: int)
    requires
        wave >= 0,
    ensures
        3 * (spec_spawned_enemy_hp(wave) - ENEMY_HP) <= wave,
        wave < 3 * (spec_spawned_enemy_hp(wave) - ENEMY_HP + 1),
{
    lemma_trunc_div_rounds_toward_zero(wave, 3);
}

/// From wave zero on, a spawn brings one enemy plus one for every two full
/// waves passed, until the cap of eight: with `c` the group size, either
/// `c` is the cap and the uncapped size would reach it, or `2 * (c - 1)` is
/// the largest multiple of two not above `wave`.
pub proof fn lemma_spawn_count_by_halves(wave: int)
    requires
        wave >= 0,
    ensures
        spec_spawn_count(wave) == MAX_SPAWN_GROUP ==> 2 * (MAX_SPAWN_GROUP - 1) <= wave,
        spec_spawn_count(wave) < MAX_SPAWN_GROUP ==> 2 * (spec_spawn_count(wave) - 1) <= wave
            < 2 * spec_spawn_count(wave),
        spec_spawn_count(wave) <= MAX_SPAWN_GROUP,
        wave >= 2 * (MAX_SPAWN_GROUP - 1) ==> spec_spawn_count(wave) == MAX_SPAWN_GROUP,
{
    lemma_trunc_div_rounds_toward_zero(wave, 2);
}

/// A full health bar stands for the hit points of an enemy spawned in the
/// wave before, and never for fewer than one; so it too grows by one every
/// third wave.
pub proof fn lemma_hp_bar_matches_previous_wave(wave: int)
    requires
        wave > i32::MIN,
    ensures
        spec_hp_bar_capacity(wave) == if spec_spawned_enemy_hp(wave - 1) > 1 {
            spec_spawned_enemy_hp(wave - 1)
        } else {
            1
        },
        wave >= 1 ==> spec_hp_bar_capacity(wave) == spec_spawned_enemy_hp(wave - 1),
{
    lemma_trunc_div_rounds_toward_zero(wave - 1, 3);
}

/// Kills that wave `wave` asks for.
pub fn wave_kill_target(wave: i32) -> (r: i32)
    requires
        i32::MIN <= 3 * wave,
        spec_wave_kill_target(wave as int) <= i32::MAX,
    ensures
        r == spec_wave_kill_target(wave as int),
{
    5 + wave * 3
}

/// Enemies that one spawn brings in during wave `wave`.
pub fn spawn_count(wave: i32) -> (r: i32)
    ensures
        r == spec_spawn_count(wave as int),
{
    let c = 1 + wave / 2;
    if c < MAX_SPAWN_GROUP {
        c
    } else {
        MAX_SPAWN_GROUP
    }
}

/// Hit points of an enemy spawned during wave `wave`.
pub fn spawned_enemy_hp(wave: i32) -> (r: i32)
    ensures
        r == spec_spawned_enemy_hp(wave as int),
{
    ENEMY_HP + wave / 3
}

/// Hit points that a full health bar stands for during wave `wave`.
pub fn hp_bar_capacity(wave: i32) -> (r: i32)
    ensures
        r == spec_hp_bar_capacity(wave as int),
{
    let before = if wave == i32::MIN {
        wave
    } else {
        wave - 1
    };
    let c = ENEMY_HP + before / 3;
    if c > 1 {
        c
    } else {
        1
    }
}

} // verus!
