//! The session record: at most one power assertion is tracked per process,
//! together with its mode, its start time and an optional duration.
//!
//! Time is handled as a plain count of seconds supplied by the caller, so
//! every projection of the state is a pure, verified function.

use crate::power::AssertionType;
use vstd::prelude::*;

verus! {

/// A point-in-time projection of the session state, as reported to callers.
#[derive(Clone, Copy, Debug)]
pub struct CaffeinateStatus {
    pub is_active: bool,
    pub mode: Option<AssertionType>,
    pub remaining_seconds: Option<u64>,
    pub total_seconds: Option<u64>,
}

/// The session state: an assertion handle (0 means none is held), the mode it
/// was created with, its start time and its optional duration, all in seconds.
#[derive(Clone, Copy, Debug)]
pub struct AppState {
    pub assertion_id: u32,
    pub mode: Option<AssertionType>,
    pub start_time: Option<u64>,
    pub duration: Option<u64>,
}

/// The state that holds no assertion and no session fields.
pub open spec fn cleared_state() -> AppState {
    AppState { assertion_id: 0, mode: None, start_time: None, duration: None }
}

/// The status reported when no assertion is held.
pub open spec fn inactive_status() -> CaffeinateStatus {
    CaffeinateStatus { is_active: false, mode: None, remaining_seconds: None, total_seconds: None }
}

/// Seconds elapsed since `start`, saturating at zero if `now` lies before it.
pub open spec fn elapsed_secs(start: u64, now: u64) -> u64 {
    if now >= start {
        (now - start) as u64
    } else {
        0
    }
}

/// Seconds left of a session of `dur` seconds begun at `start`: never below
/// zero.
pub open spec fn remaining_secs(start: u64, dur: u64, now: u64) -> u64 {
    if elapsed_secs(start, now) >= dur {
        0
    } else {
        (dur - elapsed_secs(start, now)) as u64
    }
}

/// What `AppState::get_status` reports for state `s` at time `now`:
/// active iff a handle is held; the remaining seconds only for an active,
/// time-limited session; the mode and total as recorded.
pub open spec fn status_of(s: AppState, now: u64) -> CaffeinateStatus {
    CaffeinateStatus {
        is_active: s.assertion_id != 0,
        mode: s.mode,
        remaining_seconds: if s.assertion_id != 0 {
            match (s.start_time, s.duration) {
                (Some(start), Some(dur)) => Some(remaining_secs(start, dur, now)),
                _ => None,
            }
        } else {
            None
        },
        total_seconds: s.duration,
    }
}

/// Whether a time-limited session begun at `s.start_time` has run out at
/// `now`; a session without both a start and a duration never expires.
pub open spec fn expired_of(s: AppState, now: u64) -> bool {
    match (s.start_time, s.duration) {
        (Some(start), Some(dur)) => elapsed_secs(start, now) >= dur,
        _ => false,
    }
}

impl Default for AppState {
    fn default() -> (r: Self)
        ensures
            r == cleared_state(),
    {
        AppState { assertion_id: 0, mode: None, start_time: None, duration: None }
    }
}

impl Default for CaffeinateStatus {
    fn default() -> (r: Self)
        ensures
            r == inactive_status(),
    {
        CaffeinateStatus {
            is_active: false,
            mode: None,
            remaining_seconds: None,
            total_seconds: None,
        }
    }
}

impl AppState {
    /// The current status: a pure projection of the state at time `now`.
    pub fn get_status(&self, now: u64) -> (r: CaffeinateStatus)
        ensures
            r == status_of(*self, now),
    {
        let is_active = self.assertion_id != 0;
        let remaining_seconds: Option<u64> = if is_active {
            match (self.start_time, self.duration) {
                (Some(start), Some(dur)) => {
                    let elapsed: u64 = if now >= start {
                        now - start
                    } else {
                        0
                    };
                    if elapsed >= dur {
                        Some(0)
                    } else {
                        Some(dur - elapsed)
                    }
                }
                _ => None,
            }
        } else {
            None
        };
        CaffeinateStatus {
            is_active,
            mode: self.mode,
            remaining_seconds,
            total_seconds: self.duration,
        }
    }

    /// Records a freshly created assertion: its handle, mode, start time and
    /// optional duration.
    pub fn set_active(
        &mut self,
        id: u32,
        mode: AssertionType,
        duration_secs: Option<u64>,
        now: u64,
    )
        ensures
            *final(self) == (AppState {
                assertion_id: id,
                mode: Some(mode),
                start_time: Some(now),
                duration: duration_secs,
            }),
    {
        self.assertion_id = id;
        self.mode = Some(mode);
        self.start_time = Some(now);
        self.duration = duration_secs;
    }

    /// Clears every session field; the state holds no assertion afterwards.
    pub fn clear(&mut self)
        ensures
            *final(self) == cleared_state(),
    {
        self.assertion_id = 0;
        self.mode = None;
        self.start_time = None;
        self.duration = None;
    }

    /// The handle of the held assertion, 0 if none is held.
    pub fn get_assertion_id(&self) -> (r: u32)
        ensures
            r == self.assertion_id,
    {
        self.assertion_id
    }

    /// Whether a time-limited session has run out at `now`.
    pub fn is_expired(&self, now: u64) -> (r: bool)
        ensures
            r == expired_of(*self, now),
    {
        match (self.start_time, self.duration) {
            (Some(start), Some(dur)) => {
                let elapsed: u64 = if now >= start {
                    now - start
                } else {
                    0
                };
                elapsed >= dur
            }
            _ => false,
        }
    }
}

} // verus!
