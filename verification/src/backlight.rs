//! The levels of a backlight fade. Setting a level and waiting between two
//! levels is the device's part; which level comes next is decided here.

use vstd::prelude::*;

verus! {

/// Change of the backlight from one level of a fade to the next.
pub const BACKLIGHT_STEP: i32 = 15;

/// Delay between two levels of a fade, in milliseconds.
pub const BACKLIGHT_DELAY_MS: u32 = 14;

/// Number of levels that a fade from `current` to `target` sets.
pub open spec fn fade_steps(current: int, target: int) -> int {
    if current < target {
        (target - current + 14) / 15
    } else {
        (current - target + 14) / 15
    }
}

/// Level number `k` of a fade from `current` to `target`: a rising fade
/// starts at `current` and goes up by `BACKLIGHT_STEP` while it is below
/// `target`; a falling fade starts one below `current` and goes down by
/// `BACKLIGHT_STEP` while it is not below `target`.
pub open spec fn fade_level(current: int, target: int, k: int) -> int {
    if current < target {
        current + 15 * k
    } else {
        current - 1 - 15 * k
    }
}

/// A fade in progress.
#[derive(Copy, Clone, Debug, PartialEq, Eq, Structural)]
pub struct Fade {
    /// The level that the fade moves towards.
    pub target: i32,
    /// True when the levels go up.
    pub rising: bool,
    /// The level to set next, or `None` when the fade is over.
    pub level: Option<i32>,
}

impl Fade {
    /// The fade from `current` to `target` after `k` levels were set.
    pub open spec fn at(current: i32, target: i32, k: int) -> Fade {
        Fade {
            target,
            rising: current < target,
            level: if 0 <= k < fade_steps(current as int, target as int) {
                Some(fade_level(current as int, target as int, k) as i32)
            } else {
                None
            },
        }
    }

    /// The fade after its next level was set.
    pub open spec fn stepped(self) -> Fade {
        Fade {
            level: match self.level {
                None => None,
                Some(l) => if self.rising {
                    if l + BACKLIGHT_STEP < self.target {
                        Some((l + BACKLIGHT_STEP) as i32)
                    } else {
                        None
                    }
                } else {
                    if l - BACKLIGHT_STEP >= self.target {
                        Some((l - BACKLIGHT_STEP) as i32)
                    } else {
                        None
                    }
                },
            },
            ..self
        }
    }

    /// A fade from the level `current` to `target`, before its first level
    /// is set.
    pub fn new(current: i32, target: i32) -> (f: Self)
        ensures
            f == Fade::at(current, target, 0),
    {
        let level = if current < target {
            Some(current)
        } else if target < current {
            Some(current - 1)
        } else {
            None
        };
        Fade { target, rising: current < target, level }
    }

    /// Hands out the level to set now, and moves on to the one after it;
    /// `None` when the fade is over.
    pub fn step(&mut self) -> (level: Option<i32>)
        ensures
            level == old(self).level,
            *final(self) == old(self).stepped(),
    {
        let now = self.level;
        if let Some(l) = now {
            let next: i64 = if self.rising {
                l as i64 + BACKLIGHT_STEP as i64
            } else {
                l as i64 - BACKLIGHT_STEP as i64
            };
            if self.rising && next < self.target as i64 {
                self.level = Some(next as i32);
            } else if !self.rising && next >= self.target as i64 {
                self.level = Some(next as i32);
            } else {
                self.level = None;
            }
        }
        now
    }
}

/// The levels that a fade from `current` to `target` sets, in their
/// order.
pub fn fade_backlight(current: i32, target: i32) -> (levels: Vec<i32>)
    ensures
        levels@.len() == fade_steps(current as int, target as int),
        forall|k: int|
            0 <= k < levels@.len() ==> #[trigger] levels@[k] == fade_level(
                current as int,
                target as int,
                k,
            ),
{
    let mut fade = Fade::new(current, target);
    let mut levels: Vec<i32> = Vec::new();
    loop
        invariant
            fade == Fade::at(current, target, levels@.len() as int),
            levels@.len() <= fade_steps(current as int, target as int),
            forall|k: int|
                0 <= k < levels@.len() ==> #[trigger] levels@[k] == fade_level(
                    current as int,
                    target as int,
                    k,
                ),
        ensures
            levels@.len() == fade_steps(current as int, target as int),
        decreases fade_steps(current as int, target as int) - levels@.len(),
    {
        proof {
            lemma_fade_levels(current, target, levels@.len() as int);
        }
        match fade.step() {
            Some(level) => {
                levels.push(level);
            },
            None => {
                break ;
            },
        }
    }
    levels
}

/// The levels of a fade are those of `fade_level`, as many as `fade_steps`
/// says: one step takes the fade from its level number `k` to its level
/// number `k + 1`, and every level is a representable number between the
/// two ends of the fade.
pub proof fn lemma_fade_levels(current: i32, target: i32, k: int)
    requires
        0 <= k,
    ensures
        Fade::at(current, target, k).stepped() == Fade::at(current, target, k + 1),
        k < fade_steps(current as int, target as int) ==> (if current < target {
            current <= fade_level(current as int, target as int, k) < target
        } else {
            target <= fade_level(current as int, target as int, k) < current
        }),
{
}

} // verus!
