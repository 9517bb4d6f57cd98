use demo01::rules::{
    hp_bar_capacity, spawn_count, spawned_enemy_hp, wave_kill_target, ENEMY_HP, MAX_SPAWN_GROUP,
};

#[test]
fn kill_target_starts_at_eight_and_grows_by_three() {
    assert_eq!(wave_kill_target(1), 8);
    assert_eq!(wave_kill_target(2), 11);
    assert_eq!(wave_kill_target(10), 35);
    for w in 1..200 {
        assert!(wave_kill_target(w) < wave_kill_target(w + 1));
    }
}

#[test]
fn spawn_count_grows_every_second_wave_up_to_the_cap() {
    assert_eq!(spawn_count(1), 1);
    assert_eq!(spawn_count(2), 2);
    assert_eq!(spawn_count(3), 2);
    assert_eq!(spawn_count(13), 7);
    assert_eq!(spawn_count(14), 8);
    assert_eq!(spawn_count(1000), MAX_SPAWN_GROUP);
    assert_eq!(spawn_count(i32::MAX), 8);
    for w in 1..300 {
        assert!(spawn_count(w) <= spawn_count(w + 1));
        assert!(spawn_count(w) >= 1 && spawn_count(w) <= 8);
    }
}

#[test]
fn spawn_count_rounds_toward_zero_below_zero() {
    assert_eq!(spawn_count(-3), 0);
    assert_eq!(spawn_count(-4), -1);
    assert_eq!(spawn_count(0), 1);
}

#[test]
fn spawned_hp_grows_every_third_wave() {
    assert_eq!(spawned_enemy_hp(1), ENEMY_HP);
    assert_eq!(spawned_enemy_hp(2), 2);
    assert_eq!(spawned_enemy_hp(3), 3);
    assert_eq!(spawned_enemy_hp(6), 4);
    assert_eq!(spawned_enemy_hp(-5), 1);
    for w in 1..300 {
        assert_eq!(spawned_enemy_hp(w + 3), spawned_enemy_hp(w) + 1);
    }
}

#[test]
fn hp_bar_capacity_lags_one_wave_and_is_never_below_one() {
    assert_eq!(hp_bar_capacity(1), 2);
    assert_eq!(hp_bar_capacity(3), 2);
    assert_eq!(hp_bar_capacity(4), 3);
    assert_eq!(hp_bar_capacity(0), 2);
    assert_eq!(hp_bar_capacity(-20), 1);
    assert_eq!(hp_bar_capacity(i32::MIN), 1);
    for w in -100..100 {
        assert!(hp_bar_capacity(w) >= 1);
    }
}
