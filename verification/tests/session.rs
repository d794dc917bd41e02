use caffeinator::commands::activate;
use caffeinator::commands::activation_reason;
use caffeinator::commands::deactivate;
use caffeinator::commands::toggle;
use caffeinator::commands::ToggleAction;
use caffeinator::power::create_assertion;
use caffeinator::power::get_current_assertion_id;
use caffeinator::power::has_active_assertion;
use caffeinator::power::release_assertion;
use caffeinator::power::AssertionType;
use caffeinator::power::PowerError;
use caffeinator::state::AppState;
use caffeinator::state::CaffeinateStatus;

/// A fake OS binding that counts outstanding create/release pairs.
pub struct FakeOs {
    pub outstanding: i32,
    pub creates: u32,
    pub max_outstanding: i32,
}

impl FakeOs {
    pub fn new() -> FakeOs {
        FakeOs { outstanding: 0, creates: 0, max_outstanding: 0 }
    }

    pub fn create(&mut self) -> u32 {
        self.outstanding += 1;
        if self.outstanding > self.max_outstanding {
            self.max_outstanding = self.outstanding;
        }
        self.creates += 1;
        self.creates
    }

    pub fn release(&mut self, handle: u32) -> i32 {
        if handle != 0 {
            self.outstanding -= 1;
        }
        0
    }
}

/// Drives a full activation the way the shell does: release the held
/// handle first, then create the new assertion.
pub fn drive_activate(
    os: &mut FakeOs,
    st: &mut AppState,
    mode: AssertionType,
    duration_secs: Option<u64>,
    now: u64,
) -> Result<CaffeinateStatus, PowerError> {
    let h = st.get_assertion_id();
    let code = if h != 0 { os.release(h) } else { 0 };
    let rel = release_assertion(h, code);
    deactivate(st, rel, now)?;
    assert_eq!(os.outstanding, 0, "old handle must be gone before creating");
    let id = os.create();
    let created = create_assertion(0, id);
    activate(st, mode, duration_secs, now, created)
}

pub fn drive_deactivate(
    os: &mut FakeOs,
    st: &mut AppState,
    now: u64,
) -> Result<CaffeinateStatus, PowerError> {
    let h = st.get_assertion_id();
    let code = if h != 0 { os.release(h) } else { 0 };
    let rel = release_assertion(h, code);
    deactivate(st, rel, now)
}

fn assert_status(
    s: &CaffeinateStatus,
    is_active: bool,
    mode: Option<AssertionType>,
    remaining: Option<u64>,
    total: Option<u64>,
) {
    assert_eq!(s.is_active, is_active);
    assert_eq!(s.mode, mode);
    assert_eq!(s.remaining_seconds, remaining);
    assert_eq!(s.total_seconds, total);
}

#[test]
fn activate_then_status_reports_the_session() {
    let mut st = AppState::default();
    let r = activate(&mut st, AssertionType::NoIdleSleep, Some(60), 100, Ok(7)).unwrap();
    assert_status(&r, true, Some(AssertionType::NoIdleSleep), Some(60), Some(60));
    let later = st.get_status(130);
    assert_status(&later, true, Some(AssertionType::NoIdleSleep), Some(30), Some(60));
    let done = st.get_status(200);
    assert_status(&done, true, Some(AssertionType::NoIdleSleep), Some(0), Some(60));
}

#[test]
fn activate_zero_duration_is_already_due() {
    let mut st = AppState::default();
    let r = activate(&mut st, AssertionType::NoDisplaySleep, Some(0), 50, Ok(3)).unwrap();
    assert_status(&r, true, Some(AssertionType::NoDisplaySleep), Some(0), Some(0));
    assert!(st.is_expired(50));
}

#[test]
fn activate_without_duration_is_indefinite() {
    let mut st = AppState::default();
    let r = activate(&mut st, AssertionType::PreventSystemSleep, None, 100, Ok(9)).unwrap();
    assert_status(&r, true, Some(AssertionType::PreventSystemSleep), None, None);
    assert!(!st.is_expired(1_000_000));
}

#[test]
fn activate_surfaces_create_failure_and_keeps_state() {
    let mut st = AppState::default();
    let r = activate(
        &mut st,
        AssertionType::NoIdleSleep,
        Some(5),
        10,
        Err(PowerError::CreateFailed(-536870195)),
    );
    assert!(matches!(r, Err(PowerError::CreateFailed(-536870195))));
    assert_eq!(st.get_assertion_id(), 0);
    assert_status(&st.get_status(10), false, None, None, None);
}

#[test]
fn deactivate_is_idempotent() {
    let mut st = AppState::default();
    activate(&mut st, AssertionType::NoIdleSleep, Some(60), 100, Ok(7)).unwrap();
    let rel1 = release_assertion(st.get_assertion_id(), 0);
    let first = deactivate(&mut st, rel1, 120).unwrap();
    assert_status(&first, false, None, None, None);
    let rel2 = release_assertion(st.get_assertion_id(), 0);
    let second = deactivate(&mut st, rel2, 130).unwrap();
    assert_status(&second, false, None, None, None);
    assert_eq!(st.get_assertion_id(), 0);
}

#[test]
fn deactivate_clears_state_even_when_release_fails() {
    let mut st = AppState::default();
    activate(&mut st, AssertionType::NoIdleSleep, None, 1, Ok(4)).unwrap();
    let r = deactivate(&mut st, release_assertion(4, -3), 2);
    assert!(matches!(r, Err(PowerError::ReleaseFailed(-3))));
    assert_eq!(st.get_assertion_id(), 0);
}

#[test]
fn double_activate_never_holds_two_assertions() {
    let mut os = FakeOs::new();
    let mut st = AppState::default();
    drive_activate(&mut os, &mut st, AssertionType::NoIdleSleep, None, 10)
        .unwrap();
    drive_activate(&mut os, &mut st, AssertionType::NoDisplaySleep, Some(5), 11)
        .unwrap();
    assert_eq!(os.creates, 2);
    assert_eq!(os.outstanding, 1);
    assert_eq!(os.max_outstanding, 1);
}

#[test]
fn toggle_dispatches_on_activity() {
    let mut st = AppState::default();
    assert_eq!(toggle(&st), ToggleAction::Activate);
    activate(&mut st, AssertionType::NoIdleSleep, None, 5, Ok(2)).unwrap();
    assert_eq!(toggle(&st), ToggleAction::Deactivate);
}

#[test]
fn toggle_twice_returns_to_the_original_status() {
    let mut os = FakeOs::new();
    let mut st = AppState::default();
    let now: u64 = 40;
    let before = st.get_status(now);

    // First toggle: inactive, so it activates.
    assert_eq!(toggle(&st), ToggleAction::Activate);
    drive_activate(&mut os, &mut st, AssertionType::NoIdleSleep, Some(9), now)
        .unwrap();
    // Second toggle: active, so it deactivates.
    assert_eq!(toggle(&st), ToggleAction::Deactivate);
    drive_deactivate(&mut os, &mut st, now).unwrap();

    let after = st.get_status(now);
    assert_status(&after, before.is_active, before.mode, before.remaining_seconds, before.total_seconds);
    assert_eq!(os.outstanding, 0);

    // And again from the active state, still at the activation instant.
    drive_activate(&mut os, &mut st, AssertionType::NetworkActive, Some(30), now)
        .unwrap();
    let active_before = st.get_status(now);
    assert_eq!(toggle(&st), ToggleAction::Deactivate);
    drive_deactivate(&mut os, &mut st, now).unwrap();
    assert_eq!(toggle(&st), ToggleAction::Activate);
    drive_activate(&mut os, &mut st, AssertionType::NetworkActive, Some(30), now)
        .unwrap();
    let active_after = st.get_status(now);
    assert_eq!(active_after.is_active, active_before.is_active);
    assert_eq!(active_after.mode, active_before.mode);
    assert_eq!(active_after.remaining_seconds, active_before.remaining_seconds);
    assert_eq!(active_after.total_seconds, active_before.total_seconds);
}

#[test]
fn release_of_handle_zero_never_errors() {
    assert!(release_assertion(0, 0).is_ok());
    assert!(release_assertion(0, -1).is_ok());
    assert!(release_assertion(0, 12345).is_ok());
}

#[test]
fn release_of_real_handle_follows_the_code() {
    assert!(release_assertion(8, 0).is_ok());
    assert!(matches!(release_assertion(8, -3), Err(PowerError::ReleaseFailed(-3))));
}

#[test]
fn create_assertion_follows_the_code() {
    assert_eq!(create_assertion(0, 42).unwrap(), 42);
    assert!(matches!(create_assertion(-7, 0), Err(PowerError::CreateFailed(-7))));
}

#[test]
fn current_assertion_trackers_follow_the_state() {
    let mut st = AppState::default();
    assert_eq!(get_current_assertion_id(&st), 0);
    assert!(!has_active_assertion(&st));
    st.set_active(5, AssertionType::BackgroundTask, None, 0);
    assert_eq!(get_current_assertion_id(&st), 5);
    assert!(has_active_assertion(&st));
    st.clear();
    assert_eq!(get_current_assertion_id(&st), 0);
    assert!(!has_active_assertion(&st));
}

#[test]
fn is_expired_needs_both_start_and_duration() {
    let mut st = AppState::default();
    assert!(!st.is_expired(1000));
    st.set_active(1, AssertionType::NoIdleSleep, None, 10);
    assert!(!st.is_expired(1000));
    st.set_active(1, AssertionType::NoIdleSleep, Some(20), 10);
    assert!(!st.is_expired(29));
    assert!(st.is_expired(30));
}

#[test]
fn default_status_is_inactive() {
    let s = CaffeinateStatus::default();
    assert_status(&s, false, None, None, None);
}

#[test]
fn display_names_and_assertion_names() {
    assert_eq!(AssertionType::NoIdleSleep.display_name(), "Idle");
    assert_eq!(AssertionType::NoDisplaySleep.display_name(), "Display");
    assert_eq!(AssertionType::PreventSystemSleep.display_name(), "System");
    assert_eq!(AssertionType::NetworkActive.display_name(), "Network");
    assert_eq!(AssertionType::BackgroundTask.display_name(), "Background");
    assert_eq!(AssertionType::NoIdleSleep.assertion_name(), "PreventUserIdleSystemSleep");
    assert_eq!(AssertionType::NoDisplaySleep.assertion_name(), "PreventUserIdleDisplaySleep");
    assert_eq!(AssertionType::PreventSystemSleep.assertion_name(), "PreventSystemSleep");
    assert_eq!(AssertionType::NetworkActive.assertion_name(), "NetworkClientActive");
    assert_eq!(AssertionType::BackgroundTask.assertion_name(), "BackgroundTask");
}

#[test]
fn activation_reason_names_the_mode() {
    assert_eq!(activation_reason(AssertionType::NoIdleSleep), "Caffeinator: Preventing Idle sleep");
    assert_eq!(
        activation_reason(AssertionType::NoDisplaySleep),
        "Caffeinator: Preventing Display sleep"
    );
}

#[test]
fn error_messages_carry_the_native_code() {
    assert_eq!(
        PowerError::CreateFailed(-536870195).message(),
        "Failed to create power assertion: error code -536870195"
    );
    assert_eq!(
        PowerError::ReleaseFailed(7).message(),
        "Failed to release power assertion: error code 7"
    );
    assert_eq!(
        PowerError::ToolFailed(String::from("No such file or directory")).message(),
        "Failed to run pmset: No such file or directory"
    );
}
