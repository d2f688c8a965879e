//! What the loop around the cycles decides: which screen to watch, and what
//! to do after a cycle has succeeded or failed.

use vstd::prelude::*;

verus! {

/// After this many failures in a row the loop gives up.
pub const MAX_FAILURES: u8 = 3;

/// How long to wait before the cycle is tried again after a failure, in
/// millionths of a second.
pub const RETRY_DELAY: i64 = 5_000_000;

/// What is known of a screen.
#[derive(Clone, Copy, Debug, PartialEq, Eq, Structural)]
pub struct ScreenInfo {
    pub id: u32,
    pub is_primary: bool,
}

/// Whether a screen is the one looked for: the one with the wanted id, or,
/// where no id is wanted, a primary one.
pub open spec fn is_wanted(screen: ScreenInfo, wanted: Option<u32>) -> bool {
    match wanted {
        Some(id) => screen.id == id,
        None => screen.is_primary,
    }
}

/// Picks the screen to watch: the first with the wanted id, or, where no id
/// is wanted, the first primary one.
pub fn select_screen(screens: &Vec<ScreenInfo>, wanted: Option<u32>) -> (r: Option<usize>)
    ensures
        match r {
            Some(i) => {
                &&& i < screens.len()
                &&& is_wanted(screens@[i as int], wanted)
                &&& forall|j: int| 0 <= j < i ==> !is_wanted(#[trigger] screens@[j], wanted)
            },
            None => forall|j: int|
                0 <= j < screens.len() ==> !is_wanted(#[trigger] screens@[j], wanted),
        },
{
    let mut i: usize = 0;
    while i < screens.len()
        invariant
            i <= screens.len(),
            forall|j: int| 0 <= j < i ==> !is_wanted(#[trigger] screens@[j], wanted),
        decreases screens.len() - i,
    {
        let found: bool = match wanted {
            Some(id) => screens[i].id == id,
            None => screens[i].is_primary,
        };
        if found {
            return Some(i);
        }
        i += 1;
    }
    None
}

/// How a cycle ended.
#[derive(Clone, Copy, Debug, PartialEq, Eq, Structural)]
pub enum CycleOutcome {
    /// The cycle succeeded and took this long, in millionths of a second.
    Succeeded { elapsed: u64 },
    Failed,
}

/// What the loop does next.
#[derive(Clone, Copy, Debug, PartialEq, Eq, Structural)]
pub enum LoopAction {
    /// Start the next cycle at once.
    Capture,
    /// Start the next cycle after this long, in millionths of a second.
    Wait { delay: i64 },
    /// Report the failure and try again after this long.
    Retry { delay: i64 },
    /// Give up and hand the failure on.
    GiveUp,
}

/// The failures in a row after a cycle.
pub open spec fn failures_after(failures: u8, outcome: CycleOutcome) -> u8 {
    match outcome {
        CycleOutcome::Succeeded { .. } => 0u8,
        CycleOutcome::Failed => if failures < MAX_FAILURES {
            (failures + 1) as u8
        } else {
            failures
        },
    }
}

/// What to do after a cycle.
pub open spec fn action_after(failures: u8, capture_interval: i64, outcome: CycleOutcome)
    -> LoopAction {
    match outcome {
        CycleOutcome::Succeeded { elapsed } => if capture_interval - elapsed > 0 {
            LoopAction::Wait { delay: (capture_interval - elapsed) as i64 }
        } else {
            LoopAction::Capture
        },
        CycleOutcome::Failed => if failures_after(failures, outcome) >= MAX_FAILURES {
            LoopAction::GiveUp
        } else {
            LoopAction::Retry { delay: RETRY_DELAY }
        },
    }
}

/// Decides what the loop does after a cycle: after a success the failures
/// are forgotten and the rest of the capture interval is waited out; after a
/// failure the cycle is tried again, until the third failure in a row.
pub fn next_step(failures: u8, capture_interval: i64, outcome: CycleOutcome) -> (r: (
    u8,
    LoopAction,
))
    ensures
        r.0 == failures_after(failures, outcome),
        r.1 == action_after(failures, capture_interval, outcome),
{
    match outcome {
        CycleOutcome::Succeeded { elapsed } => {
            let remaining: i128 = capture_interval as i128 - elapsed as i128;
            if remaining > 0 {
                (0, LoopAction::Wait { delay: remaining as i64 })
            } else {
                (0, LoopAction::Capture)
            }
        },
        CycleOutcome::Failed => {
            let count: u8 = if failures < MAX_FAILURES {
                failures + 1
            } else {
                failures
            };
            if count >= MAX_FAILURES {
                (count, LoopAction::GiveUp)
            } else {
                (count, LoopAction::Retry { delay: RETRY_DELAY })
            }
        },
    }
}

} // verus!
