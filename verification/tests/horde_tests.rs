use demo01::horde::{
    bullet_targets, missed, remove_defeated, resolve_collisions, spawn_enemy, strike, Enemy,
};
use demo01::rules::ENEMY_HP;

fn horde(hps: &[i32]) -> Vec<Enemy<char>> {
    hps.iter()
        .enumerate()
        .map(|(i, &hp)| Enemy { body: (b'a' + i as u8) as char, hp })
        .collect()
}

fn view(v: &[Enemy<char>]) -> Vec<(char, i32)> {
    v.iter().map(|e| (e.body, e.hp)).collect()
}

#[test]
fn spawned_enemies_get_the_wave_hit_points() {
    let mut v: Vec<Enemy<char>> = Vec::new();
    spawn_enemy(&mut v, 'x', 1);
    spawn_enemy(&mut v, 'y', 7);
    assert_eq!(view(&v), vec![('x', ENEMY_HP), ('y', 4)]);
}

#[test]
fn each_bullet_targets_the_first_enemy_it_touches() {
    let contacts = vec![
        vec![false, true, true],
        vec![false, false, false],
        vec![true, false, true],
        vec![],
    ];
    assert_eq!(bullet_targets(&contacts), vec![Some(1), None, Some(0), None]);
}

#[test]
fn missed_marks_bullets_without_a_target() {
    assert_eq!(missed(&vec![Some(3), None, Some(0)]), vec![false, true, false]);
}

#[test]
fn strikes_take_one_hit_point_per_bullet() {
    let mut v = horde(&[2, 3, 1]);
    strike(&mut v, &vec![Some(1), None, Some(1), Some(2), Some(1)]);
    assert_eq!(view(&v), vec![('a', 2), ('b', 0), ('c', 0)]);
}

#[test]
fn defeated_enemies_are_taken_out_in_order() {
    let mut v = horde(&[0, 4, -1, 2, 0]);
    let gone = remove_defeated(&mut v);
    assert_eq!(view(&v), vec![('b', 4), ('d', 2)]);
    assert_eq!(view(&gone), vec![('a', 0), ('c', -1), ('e', 0)]);
}

#[test]
fn collisions_spend_striking_bullets_and_remove_dead_enemies() {
    let mut bullets = vec![10, 11, 12, 13];
    let mut enemies = horde(&[1, 2, 1]);
    let before: i32 = enemies.iter().map(|e| e.hp).sum();
    let targets = vec![Some(0), None, Some(1), Some(0)];
    let out = resolve_collisions(&mut bullets, &mut enemies, &targets);
    assert_eq!(bullets, vec![11]);
    assert_eq!(out.spent, vec![10, 12, 13]);
    assert_eq!(view(&enemies), vec![('b', 1), ('c', 1)]);
    assert_eq!(view(&out.defeated), vec![('a', -1)]);
    let after: i32 = enemies.iter().chain(out.defeated.iter()).map(|e| e.hp).sum();
    assert_eq!(before - after, out.spent.len() as i32);
}

#[test]
fn collisions_without_targets_change_nothing() {
    let mut bullets = vec!['p', 'q'];
    let mut enemies = horde(&[3]);
    let out = resolve_collisions(&mut bullets, &mut enemies, &vec![None, None]);
    assert_eq!(bullets, vec!['p', 'q']);
    assert!(out.spent.is_empty() && out.defeated.is_empty());
    assert_eq!(view(&enemies), vec![('a', 3)]);
}
