//! Game-run state: the options, input snapshots and per-run counters that
//! sit around the voxel world, and the scoring rule for taking a portal.

use vstd::prelude::*;

use crate::flat::{MAXIMUM_GOAL_DEPTH, MINIMUM_GOAL_DEPTH};

verus! {

#[verifier::external_type_specification]
#[verifier::external_body]
pub struct ExInstant(std::time::Instant);

/// Relies on std's `Instant::now`: an opaque reading of the monotonic
/// clock.  Nothing is promised of the value.
#[verifier::external_body]
fn instant_now() -> std::time::Instant {
    std::time::Instant::now()
}

/// Whether an input activation comes from holding a button or from a
/// toggled state.
#[derive(Clone, Copy, PartialEq, Eq, Structural, Debug)]
pub enum HoldOrToggle {
    Hold,
    Toggle(bool),
}

impl HoldOrToggle {
    /// The stored toggle state: false for hold, the stored flag for toggle.
    pub fn active(self) -> (b: bool)
        ensures
            b == (self matches HoldOrToggle::Toggle(t) && t),
    {
        match self {
            HoldOrToggle::Toggle(t) => t,
            HoldOrToggle::Hold => false,
        }
    }
}

/// Player-facing options.
pub struct Options {
    pub camera_boost: HoldOrToggle,
    pub hotas_mode: bool,
    pub invert_y: bool,
}

impl Default for Options {
    fn default() -> (o: Options)
        ensures
            o.camera_boost == HoldOrToggle::Hold,
            !o.hotas_mode,
            o.invert_y,
    {
        Options { camera_boost: HoldOrToggle::Hold, hotas_mode: false, invert_y: true }
    }
}

/// The keyboard inputs the game reads.
pub struct Keyboard {
    pub up: bool,
    pub down: bool,
    pub left: bool,
    pub right: bool,
    pub space: bool,
    pub a: bool,
    pub d: bool,
}

impl Default for Keyboard {
    fn default() -> (k: Keyboard)
        ensures
            !k.up && !k.down && !k.left && !k.right && !k.space && !k.a && !k.d,
    {
        Keyboard {
            up: false,
            down: false,
            left: false,
            right: false,
            space: false,
            a: false,
            d: false,
        }
    }
}

/// One run through the generated worlds: level, score and, once the
/// player has acted, the moment the run started.
pub struct Run {
    pub level: u32,
    pub points: u32,
    pub start: Option<std::time::Instant>,
}

impl Default for Run {
    fn default() -> (r: Run)
        ensures
            r.level == 0,
            r.points == 0,
            r.start.is_none(),
    {
        Run { level: 0, points: 0, start: None }
    }
}

impl Run {
    /// Start the run clock when a starting action arrives and the run has
    /// not started yet; never stop or restart it here.
    pub fn ensure_running_if(&mut self, start_game: bool)
        ensures
            final(self).level == old(self).level,
            final(self).points == old(self).points,
            final(self).start.is_some() <==> old(self).start.is_some() || start_game,
            old(self).start.is_some() ==> final(self).start == old(self).start,
    {
        match self.start {
            None => {
                if start_game {
                    self.start = Some(instant_now());
                }
            }
            Some(_) => {}
        }
    }
}

/// State of the overlay windows drawn over the game.
pub struct Overlay {
    pub is_options_visible: bool,
    pub is_help_visible: bool,
    pub last_cursor_movement: std::time::Instant,
    pub seed_string: String,
}

/// The points granted for flying through a portal at a given depth: one
/// more than the depth beyond the minimum goal depth, with one bonus
/// point for a portal at the deepest reachable level.
pub fn portal_points(depth: u32) -> (p: u32)
    requires
        depth + 1 >= MINIMUM_GOAL_DEPTH,
        depth <= MAXIMUM_GOAL_DEPTH,
    ensures
        p == (if depth == MAXIMUM_GOAL_DEPTH { 1int } else { 0int }) + depth + 1
            - MINIMUM_GOAL_DEPTH,
{
    let bonus: u32 = if depth == MAXIMUM_GOAL_DEPTH {
        1
    } else {
        0
    };
    bonus + depth + 1 - MINIMUM_GOAL_DEPTH
}

} // verus!
