//! The lifecycle operations: activate, deactivate and toggle, as verified
//! decisions over the session state and the outcomes of the native calls,
//! together with the laws that hold of them.

use crate::power::AssertionType;
use crate::power::PowerError;
use crate::power::release_result;
use crate::state::AppState;
use crate::state::CaffeinateStatus;
use crate::state::cleared_state;
use crate::state::inactive_status;
use crate::state::remaining_secs;
use crate::state::status_of;
use vstd::prelude::*;
use vstd::string::StringExecFns;

verus! {

/// Which operation a toggle performs.
#[derive(Clone, Copy, Debug, PartialEq, Eq, Structural)]
pub enum ToggleAction {
    Activate,
    Deactivate,
}

/// Which way a toggle goes from state `s`: it deactivates exactly when an
/// assertion is held.
pub open spec fn toggle_action_of(s: AppState) -> ToggleAction {
    if s.assertion_id != 0 {
        ToggleAction::Deactivate
    } else {
        ToggleAction::Activate
    }
}

/// Clears the session and surfaces the outcome of releasing its handle:
/// the release error, if any, is reported, but the local state is cleared
/// either way, so a failed release can never leave a stale handle recorded.
pub fn deactivate(
    state: &mut AppState,
    released: Result<(), PowerError>,
    now: u64,
) -> (r: Result<CaffeinateStatus, PowerError>)
    ensures
        *final(state) == cleared_state(),
        released is Ok ==> r == Ok::<CaffeinateStatus, PowerError>(inactive_status()),
        released is Err ==> r == Err::<CaffeinateStatus, PowerError>(released->Err_0),
{
    state.clear();
    match released {
        Ok(_) => {
            let status = state.get_status(now);
            assert(status_of(cleared_state(), now) == inactive_status());
            Ok(status)
        }
        Err(e) => Err(e),
    }
}

/// Records a freshly created assertion, or passes the create failure on; the
/// previous handle must already have been released and cleared, so no two
/// assertions are ever held at once.
pub fn activate(
    state: &mut AppState,
    mode: AssertionType,
    duration_secs: Option<u64>,
    now: u64,
    created: Result<u32, PowerError>,
) -> (r: Result<CaffeinateStatus, PowerError>)
    requires
        old(state).assertion_id == 0,
    ensures
        created is Ok ==> *final(state) == (AppState {
            assertion_id: created->Ok_0,
            mode: Some(mode),
            start_time: Some(now),
            duration: duration_secs,
        }) && r == Ok::<CaffeinateStatus, PowerError>(status_of(*final(state), now)),
        created is Err ==> *final(state) == *old(state) && r == Err::<
            CaffeinateStatus,
            PowerError,
        >(created->Err_0),
{
    match created {
        Ok(id) => {
            state.set_active(id, mode, duration_secs, now);
            Ok(state.get_status(now))
        }
        Err(e) => Err(e),
    }
}

/// The toggle decision: a held assertion is deactivated, otherwise a new one
/// is activated.
pub fn toggle(state: &AppState) -> (r: ToggleAction)
    ensures
        r == toggle_action_of(*state),
{
    if state.get_assertion_id() != 0 {
        ToggleAction::Deactivate
    } else {
        ToggleAction::Activate
    }
}

/// The reason string handed to the OS when an assertion is created.
pub open spec fn activation_reason_of(mode: AssertionType) -> Seq<char> {
    "Caffeinator: Preventing "@ + crate::power::display_name_of(mode) + " sleep"@
}

/// Builds the human-readable reason the OS shows for our assertion.
pub fn activation_reason(mode: AssertionType) -> (r: String)
    ensures
        r@ == activation_reason_of(mode),
{
    let mut s = String::from_str("Caffeinator: Preventing ");
    s.append(mode.display_name());
    s.append(" sleep");
    s
}

/// Law: after an activation records handle `id` at `start` with mode `m` and
/// a duration of `d` seconds, the status taken at any later time reports the
/// session active with mode `m` and total `d`; the remaining seconds are
/// exactly the time still to run, never exceed `d`, and only decrease as time
/// moves on.
pub proof fn lemma_activate_then_status(
    id: u32,
    m: AssertionType,
    d: u64,
    start: u64,
    now1: u64,
    now2: u64,
)
    requires
        id != 0,
        start <= now1 <= now2,
    ensures
        ({
            let s = AppState {
                assertion_id: id,
                mode: Some(m),
                start_time: Some(start),
                duration: Some(d),
            };
            &&& status_of(s, now1).is_active
            &&& status_of(s, now1).mode == Some(m)
            &&& status_of(s, now1).total_seconds == Some(d)
            &&& status_of(s, now1).remaining_seconds == Some(remaining_secs(start, d, now1))
            &&& remaining_secs(start, d, now1) <= d
            &&& remaining_secs(start, d, now2) <= remaining_secs(start, d, now1)
        }),
{
}

/// Law: an activation without a duration reports an active session with its
/// mode, and no remaining or total seconds, at every time.
pub proof fn lemma_activate_indefinite_status(id: u32, m: AssertionType, start: u64, now: u64)
    requires
        id != 0,
    ensures
        ({
            let s = AppState {
                assertion_id: id,
                mode: Some(m),
                start_time: Some(start),
                duration: None,
            };
            &&& status_of(s, now).is_active
            &&& status_of(s, now).mode == Some(m)
            &&& status_of(s, now).total_seconds is None
            &&& status_of(s, now).remaining_seconds is None
        }),
{
}

/// Law: deactivation is idempotent. Whatever the state was, `deactivate`
/// leaves the cleared state, whose status at every time is inactive with no
/// mode and no seconds; and a repeated deactivation releases handle 0, which
/// never errors, so it reports the very same status again.
pub proof fn lemma_deactivate_idempotent(now: u64, os_code: i32)
    ensures
        status_of(cleared_state(), now) == inactive_status(),
        cleared_state().assertion_id == 0,
        release_result(0, os_code) == Ok::<(), PowerError>(()),
{
}

/// Law: a toggle activates exactly from a state holding no assertion and
/// deactivates exactly from a state holding one.
pub proof fn lemma_toggle_dispatch(s: AppState)
    ensures
        s.assertion_id == 0 ==> toggle_action_of(s) == ToggleAction::Activate,
        s.assertion_id != 0 ==> toggle_action_of(s) == ToggleAction::Deactivate,
{
}

/// Law: two toggles from the cleared state return to the starting status.
/// The first toggle activates, recording some handle `id`; the second
/// deactivates, leaving the cleared state again, so the status at every time
/// equals the one the sequence started from.
pub proof fn lemma_toggle_twice_from_inactive(m: AssertionType, d: Option<u64>, id: u32, now: u64)
    requires
        id != 0,
    ensures
        ({
            let s1 = AppState { assertion_id: id, mode: Some(m), start_time: Some(now), duration: d };
            &&& toggle_action_of(cleared_state()) == ToggleAction::Activate
            &&& toggle_action_of(s1) == ToggleAction::Deactivate
            &&& status_of(cleared_state(), now) == inactive_status()
        }),
{
}

/// Law: two toggles from an active session return to the starting status,
/// when no time has passed since that session was activated. The first
/// toggle deactivates; the second activates with the session's own mode and
/// duration, recording some handle `id2`, and the status it reports equals
/// the starting one.
pub proof fn lemma_toggle_twice_from_active(s: AppState, id2: u32, now: u64)
    requires
        s.assertion_id != 0,
        s.mode is Some,
        s.start_time == Some(now),
        id2 != 0,
    ensures
        ({
            let s2 = AppState {
                assertion_id: id2,
                mode: s.mode,
                start_time: Some(now),
                duration: s.duration,
            };
            &&& toggle_action_of(s) == ToggleAction::Deactivate
            &&& toggle_action_of(cleared_state()) == ToggleAction::Activate
            &&& status_of(s2, now) == status_of(s, now)
        }),
{
}

} // verus!
