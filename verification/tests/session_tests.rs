use demo01::rules::PLAYER_MAX_HP;
use demo01::session::{FramePhase, Session};

fn snapshot(s: &Session) -> (i32, i32, i32, i32, bool, bool) {
    (s.hp, s.score, s.wave, s.enemies_killed, s.game_over, s.paused)
}

#[test]
fn a_new_game_is_playing_with_full_hit_points() {
    let s = Session::new();
    assert_eq!(snapshot(&s), (PLAYER_MAX_HP, 0, 1, 0, false, false));
}

#[test]
fn pause_key_toggles_and_twice_restores() {
    let mut s = Session::new();
    let before = snapshot(&s);
    assert_eq!(s.begin_frame(true), FramePhase::Paused);
    assert!(s.paused);
    assert_eq!(s.begin_frame(false), FramePhase::Paused);
    assert_eq!(s.begin_frame(true), FramePhase::Playing);
    assert_eq!(snapshot(&s), before);
}

#[test]
fn kills_score_ten_points_each() {
    let mut s = Session::new();
    s.record_kills(3);
    assert_eq!(s.score, 30);
    assert_eq!(s.enemies_killed, 3);
    s.record_kills(0);
    assert_eq!(s.score, 30);
    s.record_kills(2);
    let mut t = Session::new();
    t.record_kills(5);
    assert_eq!(snapshot(&s), snapshot(&t));
}

#[test]
fn clearing_a_wave_advances_and_heals_up_to_the_maximum() {
    let mut s = Session::new();
    s.record_kills(7);
    s.finish_frame(false);
    assert_eq!((s.wave, s.enemies_killed), (1, 7));
    s.record_kills(1);
    s.finish_frame(false);
    assert_eq!((s.wave, s.enemies_killed, s.hp), (2, 0, PLAYER_MAX_HP));
    s.finish_frame(true);
    s.finish_frame(true);
    assert_eq!(s.hp, 3);
    s.record_kills(11);
    s.finish_frame(false);
    assert_eq!((s.wave, s.enemies_killed, s.hp), (3, 0, 4));
    assert_eq!(s.score, 190);
}

#[test]
fn damage_and_clear_in_one_frame_cancel_out() {
    let mut s = Session::new();
    s.finish_frame(true);
    assert_eq!(s.hp, 4);
    s.record_kills(8);
    s.finish_frame(true);
    assert_eq!((s.hp, s.wave), (4, 2));
}

#[test]
fn losing_the_last_hit_point_ends_the_game_and_enter_restarts() {
    let mut s = Session::new();
    for _ in 0..4 {
        s.finish_frame(true);
        assert!(!s.game_over);
    }
    s.record_kills(2);
    s.finish_frame(true);
    assert_eq!(s.hp, 0);
    assert!(s.game_over);
    assert_eq!(s.begin_frame(false), FramePhase::Over);
    assert!(!s.respond_to_restart(false));
    assert!(s.game_over);
    assert!(s.respond_to_restart(true));
    assert_eq!(snapshot(&s), snapshot(&Session::new()));
    assert_eq!(s.begin_frame(false), FramePhase::Playing);
}

#[test]
fn last_hit_point_survives_when_the_wave_is_cleared() {
    let mut s = Session::new();
    for _ in 0..4 {
        s.finish_frame(true);
    }
    assert_eq!(s.hp, 1);
    s.record_kills(8);
    s.finish_frame(true);
    assert_eq!(s.hp, 1);
    assert!(!s.game_over);
    assert_eq!(s.wave, 2);
}

#[test]
fn restart_keeps_the_pause_flag() {
    let mut s = Session::new();
    s.record_kills(4);
    s.paused = true;
    s.restart();
    assert_eq!(snapshot(&s), (PLAYER_MAX_HP, 0, 1, 0, false, true));
}
