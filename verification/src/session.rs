use vstd::prelude::*;

use crate::rules::{spec_wave_kill_target, wave_kill_target, KILL_SCORE, PLAYER_MAX_HP};

verus! {

/// The integer state of one game: the player's hit points, the score, the
/// wave, the kills counted toward the current wave, and the two flags that
/// decide what a frame does.
pub struct Session {
    pub hp: i32,
    pub score: i32,
    pub wave: i32,
    pub enemies_killed: i32,
    pub game_over: bool,
    pub paused: bool,
}

/// What the current frame does.
#[derive(PartialEq, Eq, Structural, Debug, Clone, Copy)]
pub enum FramePhase {
    /// The game is paused: draw it and change nothing.
    Paused,
    /// The game runs: move, shoot, collide, then finish the frame.
    Playing,
    /// The player has no hit points left: wait for a restart.
    Over,
}

impl Session {
    /// The invariant that every operation keeps.
    pub open spec fn wf(&self) -> bool {
        &&& 0 <= self.hp <= PLAYER_MAX_HP
        &&& (self.game_over <==> self.hp == 0)
        &&& 1 <= self.wave
        &&& 0 <= self.score
        &&& self.score % KILL_SCORE == 0
        &&& 0 <= self.enemies_killed
    }

    /// The state a game starts (and restarts) in.
    pub open spec fn fresh(paused: bool) -> Session {
        Session {
            hp: PLAYER_MAX_HP,
            score: 0,
            wave: 1,
            enemies_killed: 0,
            game_over: false,
            paused,
        }
    }

    /// The state after the pause key was (or was not) pressed.
    pub open spec fn with_pause_input(self, pause_pressed: bool) -> Session {
        Session { paused: self.paused != pause_pressed, ..self }
    }

    /// What a frame does in this state.
    pub open spec fn phase_of(self) -> FramePhase {
        if self.paused {
            FramePhase::Paused
        } else if self.game_over {
            FramePhase::Over
        } else {
            FramePhase::Playing
        }
    }

    /// The state after `defeated` enemies were defeated.
    pub open spec fn with_kills(self, defeated: int) -> Session {
        Session {
            score: (self.score + KILL_SCORE * defeated) as i32,
            enemies_killed: (self.enemies_killed + defeated) as i32,
            ..self
        }
    }

    /// Whether the kills of this wave reach its target.
    pub open spec fn wave_cleared(self) -> bool {
        self.enemies_killed >= spec_wave_kill_target(self.wave as int)
    }

    /// The state at the end of a playing frame in which the player was (or
    /// was not) damaged: one hit point is lost on damage; a cleared wave
    /// moves to the next wave, resets the kill count and heals one hit point
    /// up to the maximum; no hit points left ends the game.
    pub open spec fn after_frame(self, damaged: bool) -> Session {
        let hp1: int = if damaged {
            self.hp - 1
        } else {
            self.hp as int
        };
        let hp2: int = if self.wave_cleared() {
            if hp1 + 1 < PLAYER_MAX_HP {
                hp1 + 1
            } else {
                PLAYER_MAX_HP as int
            }
        } else {
            hp1
        };
        Session {
            hp: hp2 as i32,
            wave: if self.wave_cleared() {
                (self.wave + 1) as i32
            } else {
                self.wave
            },
            enemies_killed: if self.wave_cleared() {
                0
            } else {
                self.enemies_killed
            },
            game_over: self.game_over || hp2 <= 0,
            ..self
        }
    }

    /// The arithmetic of a frame stays within `i32`.
    pub open spec fn frame_fits(self) -> bool {
        &&& i32::MIN <= 3 * self.wave
        &&& spec_wave_kill_target(self.wave as int) <= i32::MAX
    }

    /// A new game, unpaused.
    pub fn new() -> (s: Session)
        ensures
            s == Session::fresh(false),
            s.wf(),
    {
        Session {
            hp: PLAYER_MAX_HP,
            score: 0,
            wave: 1,
            enemies_killed: 0,
            game_over: false,
            paused: false,
        }
    }

    /// Starts a frame: the pause key toggles the pause; the result says
    /// what the rest of the frame does.
    pub fn begin_frame(&mut self, pause_pressed: bool) -> (phase: FramePhase)
        ensures
            *final(self) == old(self).with_pause_input(pause_pressed),
            phase == final(self).phase_of(),
            final(self).paused ==> phase == FramePhase::Paused,
            !final(self).paused && old(self).game_over ==> phase == FramePhase::Over,
            !final(self).paused && !old(self).game_over ==> phase == FramePhase::Playing,
            old(self).wf() ==> final(self).wf(),
    {
        if pause_pressed {
            self.paused = !self.paused;
        }
        if self.paused {
            FramePhase::Paused
        } else if self.game_over {
            FramePhase::Over
        } else {
            FramePhase::Playing
        }
    }

    /// Counts `defeated` enemies toward the score and the current wave.
    pub fn record_kills(&mut self, defeated: usize)
        requires
            old(self).wf(),
            old(self).score + KILL_SCORE * defeated <= i32::MAX,
            old(self).enemies_killed + defeated <= i32::MAX,
        ensures
            *final(self) == old(self).with_kills(defeated as int),
            final(self).wf(),
    {
        let n = defeated as i32;
        self.score = self.score + KILL_SCORE * n;
        self.enemies_killed = self.enemies_killed + n;
        proof {
            vstd::arithmetic::div_mod::lemma_mod_multiples_vanish(
                defeated as int,
                old(self).score as int,
                KILL_SCORE as int,
            );
        }
    }

    /// Ends a playing frame: applies the damage taken, moves on to the next
    /// wave when this one is cleared, and ends the game when no hit points
    /// are left.
    pub fn finish_frame(&mut self, damaged: bool)
        requires
            old(self).wf(),
            !old(self).game_over,
            old(self).frame_fits(),
        ensures
            *final(self) == old(self).after_frame(damaged),
            final(self).wf(),
    {
        if damaged {
            self.hp = self.hp - 1;
        }
        let target = wave_kill_target(self.wave);
        if self.enemies_killed >= target {
            self.wave = self.wave + 1;
            self.enemies_killed = 0;
            self.hp = if self.hp + 1 < PLAYER_MAX_HP {
                self.hp + 1
            } else {
                PLAYER_MAX_HP
            };
        }
        if self.hp <= 0 {
            self.game_over = true;
        }
    }

    /// Puts the game back in its starting state; the pause flag is kept.
    pub fn restart(&mut self)
        ensures
            *final(self) == Session::fresh(old(self).paused),
            final(self).wf(),
    {
        self.hp = PLAYER_MAX_HP;
        self.score = 0;
        self.wave = 1;
        self.enemies_killed = 0;
        self.game_over = false;
    }

    /// A frame after the game is over: the restart key starts a new game.
    /// Returns whether it did.
    pub fn respond_to_restart(&mut self, restart_pressed: bool) -> (restarted: bool)
        ensures
            restarted == restart_pressed,
            *final(self) == if restart_pressed {
                Session::fresh(old(self).paused)
            } else {
                *old(self)
            },
    {
        if restart_pressed {
            self.restart();
        }
        restart_pressed
    }
}

/// What a frame does depends on the two flags alone, never on hit points,
/// score, wave or kills: paused frames pause; otherwise a game that is over
/// waits, and any other game plays.
pub proof fn lemma_phase_by_flags(s: Session)
    ensures
        s.paused ==> s.phase_of() == FramePhase::Paused,
        !s.paused && s.game_over ==> s.phase_of() == FramePhase::Over,
        !s.paused && !s.game_over ==> s.phase_of() == FramePhase::Playing,
{
}

/// The pause key flips the pause flag exactly when it is pressed, and
/// touches nothing else.
pub proof fn lemma_pause_input_touches_only_pause(s: Session, pressed: bool)
    ensures
        (s.with_pause_input(pressed).paused != s.paused) == pressed,
        s.with_pause_input(pressed).hp == s.hp,
        s.with_pause_input(pressed).score == s.score,
        s.with_pause_input(pressed).wave == s.wave,
        s.with_pause_input(pressed).enemies_killed == s.enemies_killed,
        s.with_pause_input(pressed).game_over == s.game_over,
{
}

/// Ending a frame never touches the pause flag or the score; it changes only
/// hit points, wave, kills and the game-over flag, and the game is over
/// afterwards exactly when no hit points are left (or it already was).
pub proof fn lemma_frame_touches_only_progress(s: Session, damaged: bool)
    requires
        s.wf(),
        !s.game_over,
    ensures
        s.after_frame(damaged).paused == s.paused,
        s.after_frame(damaged).score == s.score,
        s.after_frame(damaged).game_over == (s.after_frame(damaged).hp <= 0),
{
}

/// Recording kills adds ten points and one kill for each defeated enemy and
/// changes nothing else.
pub proof fn lemma_kills_touch_only_score(s: Session, defeated: int)
    requires
        0 <= defeated,
        s.score + KILL_SCORE * defeated <= i32::MAX,
        s.enemies_killed + defeated <= i32::MAX,
        0 <= s.score,
        0 <= s.enemies_killed,
    ensures
        s.with_kills(defeated).score == s.score + 10 * defeated,
        s.with_kills(defeated).enemies_killed == s.enemies_killed + defeated,
        s.with_kills(defeated).hp == s.hp,
        s.with_kills(defeated).wave == s.wave,
        s.with_kills(defeated).game_over == s.game_over,
        s.with_kills(defeated).paused == s.paused,
{
}

/// A new or restarted game has full hit points, no score, no kills, the
/// first wave, and is not over.
pub proof fn lemma_fresh_values(paused: bool)
    ensures
        Session::fresh(paused).hp == PLAYER_MAX_HP,
        Session::fresh(paused).score == 0,
        Session::fresh(paused).wave == 1,
        Session::fresh(paused).enemies_killed == 0,
        !Session::fresh(paused).game_over,
        Session::fresh(paused).paused == paused,
{
}

/// A fresh game keeps the invariant and is playing.
pub proof fn lemma_fresh_is_playing(paused: bool)
    ensures
        Session::fresh(paused).wf(),
        Session::fresh(false).phase_of() == FramePhase::Playing,
{
}

/// Pressing the pause key twice gives back the state one started from, and
/// not pressing it changes nothing.
pub proof fn lemma_pause_toggles(s: Session)
    ensures
        s.with_pause_input(true).with_pause_input(true) == s,
        s.with_pause_input(false) == s,
{
}

/// A playing frame keeps the invariant.
pub proof fn lemma_frame_keeps_invariant(s: Session, damaged: bool)
    requires
        s.wf(),
        !s.game_over,
        s.frame_fits(),
    ensures
        s.after_frame(damaged).wf(),
{
}

/// The game ends only in a frame where the player is damaged at one hit
/// point and the wave is not cleared; a frame without damage never ends it.
pub proof fn lemma_game_ends_only_by_damage(s: Session, damaged: bool)
    requires
        s.wf(),
        !s.game_over,
    ensures
        s.after_frame(damaged).game_over <==> (damaged && s.hp == 1 && s.enemies_killed
            < spec_wave_kill_target(s.wave as int)),
{
}

/// A frame moves on to the next wave exactly when the kills reach the
/// target; then the kill count starts over and the player heals one hit
/// point, never beyond the maximum.
pub proof fn lemma_wave_progression(s: Session, damaged: bool)
    requires
        s.wf(),
        !s.game_over,
        s.frame_fits(),
    ensures
        s.enemies_killed >= spec_wave_kill_target(s.wave as int) ==> s.after_frame(damaged).wave
            == s.wave + 1
            && s.after_frame(damaged).enemies_killed == 0
            && s.after_frame(damaged).hp == if damaged {
                s.hp as int
            } else if s.hp < PLAYER_MAX_HP {
                s.hp + 1
            } else {
                PLAYER_MAX_HP as int
            },
        s.enemies_killed < spec_wave_kill_target(s.wave as int) ==> s.after_frame(damaged).wave
            == s.wave
            && s.after_frame(damaged).enemies_killed == s.enemies_killed
            && s.after_frame(damaged).hp == s.hp - (if damaged {
                1int
            } else {
                0int
            }),
        s.after_frame(damaged).score == s.score,
        s.after_frame(damaged).hp <= PLAYER_MAX_HP,
{
}

/// Kills counted in two steps score the same as counted at once, ten points
/// each.
pub proof fn lemma_kills_add_up(s: Session, a: int, b: int)
    requires
        0 <= a,
        0 <= b,
        s.score + KILL_SCORE * (a + b) <= i32::MAX,
        s.enemies_killed + a + b <= i32::MAX,
        0 <= s.score,
        0 <= s.enemies_killed,
    ensures
        s.with_kills(a).with_kills(b) == s.with_kills(a + b),
        s.with_kills(a + b).score == s.score + KILL_SCORE * (a + b),
{
}

} // verus!
