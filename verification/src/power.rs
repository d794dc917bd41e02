//! Assertion modes, the interpretation of the native assertion-call outcomes,
//! the error type, and the parsers for the power-configuration tool's output.
//!
//! The native calls themselves (an OS framework call pair and an external
//! process invocation) are performed by the surrounding shell; the functions
//! here state exactly what is made of every outcome.

use crate::state::AppState;
use crate::text::contains_seq;
use crate::text::contains_sub;
use crate::text::find_from;
use crate::text::find_sub_from;
use crate::text::has_second_token;
use crate::text::lemma_find_from;
use crate::text::lemma_seek_char_bounds;
use crate::text::parse_u32_exec;
use crate::text::parse_u32_of;
use crate::text::second_token;
use crate::text::seek_char;
use crate::text::seek_char_exec;
use crate::text::seek_non_ws_exec;
use crate::text::seek_ws_exec;
use crate::text::starts_with;
use crate::text::starts_with_at;
use crate::text::trim_of;
use crate::text::trim_range;
use vstd::prelude::*;
use vstd::string::StrSliceExecFns;
use vstd::string::StringExecFns;

verus! {

/// The kinds of power assertion the OS can hold on our behalf.
#[derive(Clone, Copy, Debug, PartialEq, Eq, Structural)]
pub enum AssertionType {
    NoIdleSleep,
    NoDisplaySleep,
    PreventSystemSleep,
    NetworkActive,
    BackgroundTask,
}

/// The short human-readable label of a mode.
pub open spec fn display_name_of(t: AssertionType) -> Seq<char> {
    match t {
        AssertionType::NoIdleSleep => "Idle"@,
        AssertionType::NoDisplaySleep => "Display"@,
        AssertionType::PreventSystemSleep => "System"@,
        AssertionType::NetworkActive => "Network"@,
        AssertionType::BackgroundTask => "Background"@,
    }
}

/// The OS-level assertion type name of a mode, as the framework expects it.
pub open spec fn assertion_name_of(t: AssertionType) -> Seq<char> {
    match t {
        AssertionType::NoIdleSleep => "PreventUserIdleSystemSleep"@,
        AssertionType::NoDisplaySleep => "PreventUserIdleDisplaySleep"@,
        AssertionType::PreventSystemSleep => "PreventSystemSleep"@,
        AssertionType::NetworkActive => "NetworkClientActive"@,
        AssertionType::BackgroundTask => "BackgroundTask"@,
    }
}

impl AssertionType {
    /// The short human-readable label of this mode.
    pub fn display_name(&self) -> (r: &'static str)
        ensures
            r@ == display_name_of(*self),
    {
        match self {
            AssertionType::NoIdleSleep => "Idle",
            AssertionType::NoDisplaySleep => "Display",
            AssertionType::PreventSystemSleep => "System",
            AssertionType::NetworkActive => "Network",
            AssertionType::BackgroundTask => "Background",
        }
    }

    /// The OS-level assertion type name of this mode; the shell wraps it into
    /// the framework's string type when it makes the native call.
    pub fn assertion_name(&self) -> (r: &'static str)
        ensures
            r@ == assertion_name_of(*self),
    {
        match self {
            AssertionType::NoIdleSleep => "PreventUserIdleSystemSleep",
            AssertionType::NoDisplaySleep => "PreventUserIdleDisplaySleep",
            AssertionType::PreventSystemSleep => "PreventSystemSleep",
            AssertionType::NetworkActive => "NetworkClientActive",
            AssertionType::BackgroundTask => "BackgroundTask",
        }
    }
}

/// The error kinds of this library: the two native assertion calls, each with
/// the native error code, and a failed invocation of the power tool, with the
/// shell's description of the failure.
#[derive(Debug)]
pub enum PowerError {
    CreateFailed(i32),
    ReleaseFailed(i32),
    ToolFailed(String),
}

/// The decimal rendering of an `i32`, as std's formatting produces it.
pub uninterp spec fn decimal_of(n: i32) -> Seq<char>;

/// Relies on std's `Display` implementation for `i32`: the decimal rendering
/// of the value, a function of the value alone.
#[verifier::external_body]
fn i32_decimal(n: i32) -> (r: String)
    ensures
        r@ == decimal_of(n),
{
    format!("{}", n)
}

/// The descriptive string of an error.
pub open spec fn message_of(e: PowerError) -> Seq<char> {
    match e {
        PowerError::CreateFailed(code) => "Failed to create power assertion: error code "@
            + decimal_of(code),
        PowerError::ReleaseFailed(code) => "Failed to release power assertion: error code "@
            + decimal_of(code),
        PowerError::ToolFailed(msg) => "Failed to run pmset: "@ + msg@,
    }
}

impl PowerError {
    /// The descriptive string surfaced to callers.
    pub fn message(&self) -> (r: String)
        ensures
            r@ == message_of(*self),
    {
        match self {
            PowerError::CreateFailed(code) => {
                let mut s = String::from_str("Failed to create power assertion: error code ");
                let digits = i32_decimal(*code);
                s.append(digits.as_str());
                s
            }
            PowerError::ReleaseFailed(code) => {
                let mut s = String::from_str("Failed to release power assertion: error code ");
                let digits = i32_decimal(*code);
                s.append(digits.as_str());
                s
            }
            PowerError::ToolFailed(msg) => {
                let mut s = String::from_str("Failed to run pmset: ");
                s.append(msg.as_str());
                s
            }
        }
    }
}

/// What `create_assertion` returns for each outcome of the native create
/// call: the fresh handle on a zero result code, otherwise the code as an
/// error.
pub open spec fn create_result(os_code: i32, os_id: u32) -> Result<u32, PowerError> {
    if os_code == 0 {
        Ok(os_id)
    } else {
        Err(PowerError::CreateFailed(os_code))
    }
}

/// What `release_assertion` returns: releasing handle 0 is a guaranteed
/// no-op success, whatever code is supplied; otherwise a zero result code
/// means success and any other code is surfaced as an error.
pub open spec fn release_result(handle: u32, os_code: i32) -> Result<(), PowerError> {
    if handle == 0 || os_code == 0 {
        Ok(())
    } else {
        Err(PowerError::ReleaseFailed(os_code))
    }
}

/// Interprets the outcome of the native assertion-create call: `os_code` is
/// the call's result code and `os_id` the handle it wrote.
pub fn create_assertion(os_code: i32, os_id: u32) -> (r: Result<u32, PowerError>)
    ensures
        r == create_result(os_code, os_id),
{
    if os_code == 0 {
        Ok(os_id)
    } else {
        Err(PowerError::CreateFailed(os_code))
    }
}

/// Interprets the outcome of releasing `handle`: for handle 0 the native call
/// is not made at all and the release succeeds trivially; otherwise `os_code`
/// is the native call's result code.
pub fn release_assertion(handle: u32, os_code: i32) -> (r: Result<(), PowerError>)
    ensures
        r == release_result(handle, os_code),
        handle == 0 ==> r == Ok::<(), PowerError>(()),
{
    if handle == 0 {
        Ok(())
    } else if os_code == 0 {
        Ok(())
    } else {
        Err(PowerError::ReleaseFailed(os_code))
    }
}

/// Releasing handle 0 never errors, whatever result code is supplied.
pub proof fn lemma_release_zero_never_errors(os_code: i32)
    ensures
        release_result(0, os_code) == Ok::<(), PowerError>(()),
{
}

/// A snapshot of the machine's power configuration, scraped from the power
/// tool's text output: the power source, the three sleep timeout values as
/// the tool prints them, and the descriptions of the assertions currently
/// held system-wide.
#[derive(Debug)]
pub struct PowerProfile {
    pub source: String,
    pub display_sleep: Option<u32>,
    pub disk_sleep: Option<u32>,
    pub system_sleep: Option<u32>,
    pub assertions: Vec<String>,
}

/// The value scraped for `key` from the text from index `i` on: the first
/// line whose trimmed content starts with `key` and has a second
/// whitespace-separated token decides, and contributes that token read as a
/// decimal number.
pub open spec fn pmset_value_from(s: Seq<char>, key: Seq<char>, i: int) -> Option<u32>
    decreases s.len() + 1 - i,
    via pmset_value_from_dec
{
    if i < 0 || i > s.len() {
        None
    } else {
        let e = seek_char(s, '\n', i);
        let t = trim_of(s.subrange(i, e));
        if starts_with(t, key) && has_second_token(t) {
            parse_u32_of(second_token(t))
        } else if e < s.len() {
            pmset_value_from(s, key, e + 1)
        } else {
            None
        }
    }
}

#[via_fn]
proof fn pmset_value_from_dec(s: Seq<char>, key: Seq<char>, i: int) {
    if 0 <= i <= s.len() {
        lemma_seek_char_bounds(s, '\n', i);
    }
}

/// The value scraped for `key` from the whole text.
pub open spec fn pmset_value_of(s: Seq<char>, key: Seq<char>) -> Option<u32> {
    pmset_value_from(s, key, 0)
}

/// Scrapes the first line whose trimmed content starts with `key` and has a
/// second whitespace-separated token, and reads that token as a number.
pub fn parse_pmset_value(output: &str, key: &str) -> (r: Option<u32>)
    ensures
        r == pmset_value_of(output@, key@),
{
    let n = output.unicode_len();
    let mut i: usize = 0;
    loop
        invariant
            0 <= i <= n,
            n == output@.len(),
            pmset_value_of(output@, key@) == pmset_value_from(output@, key@, i as int),
        decreases n + 1 - i,
    {
        let e = seek_char_exec(output, '\n', i);
        let line = output.substring_char(i, e);
        let tr = trim_range(line);
        let t = line.substring_char(tr.0, tr.1);
        assert(t@ == trim_of(output@.subrange(i as int, e as int)));
        let matched = starts_with_at(t, key, 0);
        assert(t@.skip(0) =~= t@);
        if matched {
            let tlen = t.unicode_len();
            let e1 = seek_ws_exec(t, 0);
            let a2 = seek_non_ws_exec(t, e1);
            if a2 < tlen {
                let e2 = seek_ws_exec(t, a2);
                let tok = t.substring_char(a2, e2);
                assert(tok@ == second_token(t@));
                return parse_u32_exec(tok);
            }
        }
        if e < n {
            assert(pmset_value_from(output@, key@, i as int) == pmset_value_from(
                output@,
                key@,
                e + 1,
            ));
            i = e + 1;
        } else {
            assert(pmset_value_from(output@, key@, i as int) is None);
            return None;
        }
    }
}

/// `s` with every occurrence of `pid ` replaced by `PID `, scanning left to
/// right.
pub open spec fn replace_pid(s: Seq<char>) -> Seq<char>
    decreases s.len(),
    via replace_pid_dec
{
    match find_from(s, "pid "@, 0) {
        None => s,
        Some(j) => s.take(j) + "PID "@ + replace_pid(s.skip(j + 4)),
    }
}

#[via_fn]
proof fn replace_pid_dec(s: Seq<char>) {
    reveal_strlit("pid ");
    lemma_find_from(s, "pid "@, 0);
}

/// Computes `replace_pid`.
pub fn replace_pid_exec(s: &str) -> (r: String)
    ensures
        r@ == replace_pid(s@),
    decreases s@.len(),
{
    match find_sub_from(s, "pid ", 0) {
        None => String::from_str(s),
        Some(j) => {
            proof {
                reveal_strlit("pid ");
                lemma_find_from(s@, "pid "@, 0);
            }
            let n = s.unicode_len();
            let head = s.substring_char(0, j);
            let tail = s.substring_char(j + 4, n);
            assert(head@ =~= s@.take(j as int));
            assert(tail@ =~= s@.skip(j + 4));
            let rest = replace_pid_exec(tail);
            let mut out = String::from_str(head);
            out.append("PID ");
            out.append(rest.as_str());
            out
        }
    }
}

/// The assertion entry scraped from one line after the marker, if the line
/// has the expected shape: a trimmed `pid` prefix, the end of the process
/// parenthetical, a bracketed token, then the assertion type as the second
/// space-separated field, paired with the process descriptor taken from the
/// text before the first parenthesis.
pub open spec fn assertion_of_line(line: Seq<char>) -> Option<Seq<char>> {
    if !starts_with(trim_of(line), "pid"@) {
        None
    } else {
        match find_from(line, "):"@, 0) {
            None => None,
            Some(p) => {
                let rest = line.skip(p + 2);
                match find_from(rest, "]"@, 0) {
                    None => None,
                    Some(q) => {
                        let t = trim_of(rest.skip(q + 1));
                        let sp1 = seek_char(t, ' ', 0);
                        if sp1 < t.len() {
                            let ty = t.subrange(sp1 + 1, seek_char(t, ' ', sp1 + 1));
                            let desc = replace_pid(trim_of(line.take(seek_char(line, '(', 0))));
                            Some(ty + ": "@ + desc)
                        } else {
                            None
                        }
                    }
                }
            }
        }
    }
}

/// Scrapes one line; `None` for a line that does not match the shape.
fn assertion_line_exec(line: &str) -> (r: Option<String>)
    ensures
        r.deep_view() == assertion_of_line(line@),
{
    let n = line.unicode_len();
    let tr = trim_range(line);
    let t0 = line.substring_char(tr.0, tr.1);
    let is_pid = starts_with_at(t0, "pid", 0);
    assert(t0@.skip(0) =~= t0@);
    if !is_pid {
        return None;
    }
    let p = match find_sub_from(line, "):", 0) {
        Some(p) => p,
        None => {
            return None;
        }
    };
    proof {
        reveal_strlit("):");
        lemma_find_from(line@, "):"@, 0);
    }
    let rest = line.substring_char(p + 2, n);
    assert(rest@ =~= line@.skip(p + 2));
    let rlen = rest.unicode_len();
    let q = match find_sub_from(rest, "]", 0) {
        Some(q) => q,
        None => {
            return None;
        }
    };
    proof {
        reveal_strlit("]");
        lemma_find_from(rest@, "]"@, 0);
    }
    let after = rest.substring_char(q + 1, rlen);
    assert(after@ =~= rest@.skip(q + 1));
    let tr2 = trim_range(after);
    let t = after.substring_char(tr2.0, tr2.1);
    let tlen = t.unicode_len();
    let sp1 = seek_char_exec(t, ' ', 0);
    if sp1 >= tlen {
        return None;
    }
    let e2 = seek_char_exec(t, ' ', sp1 + 1);
    let ty = t.substring_char(sp1 + 1, e2);
    let par = seek_char_exec(line, '(', 0);
    let prefix = line.substring_char(0, par);
    assert(prefix@ =~= line@.take(par as int));
    let tr3 = trim_range(prefix);
    let pr = prefix.substring_char(tr3.0, tr3.1);
    let desc = replace_pid_exec(pr);
    let mut out = String::from_str(ty);
    out.append(": ");
    out.append(desc.as_str());
    Some(out)
}

/// The assertion entries scraped from the text from index `i` on; `listed`
/// says whether the marker line has already been passed. Marker lines are
/// skipped, and only lines after the first marker contribute.
pub open spec fn assertions_from(s: Seq<char>, i: int, listed: bool) -> Seq<Seq<char>>
    decreases s.len() + 1 - i,
    via assertions_from_dec
{
    if i < 0 || i > s.len() {
        Seq::empty()
    } else {
        let e = seek_char(s, '\n', i);
        let line = s.subrange(i, e);
        let marker = contains_seq(line, "Listed by owning process"@);
        let here: Seq<Seq<char>> = if marker || !listed {
            Seq::empty()
        } else {
            match assertion_of_line(line) {
                Some(a) => seq![a],
                None => Seq::empty(),
            }
        };
        if e < s.len() {
            here + assertions_from(s, e + 1, listed || marker)
        } else {
            here
        }
    }
}

#[via_fn]
proof fn assertions_from_dec(s: Seq<char>, i: int, listed: bool) {
    if 0 <= i <= s.len() {
        lemma_seek_char_bounds(s, '\n', i);
    }
}

/// The assertion entries scraped from the whole text.
pub open spec fn assertions_of(s: Seq<char>) -> Seq<Seq<char>> {
    assertions_from(s, 0, false)
}

/// Scrapes the active-assertion listing: among the lines after the first
/// marker line, every line of the expected `pid` shape contributes one entry;
/// every other line is skipped without error.
pub fn parse_assertions(output: &str) -> (r: Vec<String>)
    ensures
        r.deep_view() == assertions_of(output@),
{
    let n = output.unicode_len();
    let mut result: Vec<String> = Vec::new();
    let mut listed = false;
    let mut i: usize = 0;
    loop
        invariant
            0 <= i <= n,
            n == output@.len(),
            assertions_of(output@) == result.deep_view() + assertions_from(
                output@,
                i as int,
                listed,
            ),
        decreases n + 1 - i,
    {
        let e = seek_char_exec(output, '\n', i);
        let line = output.substring_char(i, e);
        let marker = contains_sub(line, "Listed by owning process");
        if !marker && listed {
            match assertion_line_exec(line) {
                Some(a) => {
                    let ghost pre = result.deep_view();
                    let ghost av = a@;
                    result.push(a);
                    assert(result.deep_view() =~= pre.push(av));
                }
                None => {},
            }
        }
        if e < n {
            assert(assertions_of(output@) == result.deep_view() + assertions_from(
                output@,
                e + 1,
                listed || marker,
            )) by {
                assert(result.deep_view() + assertions_from(output@, e + 1, listed || marker)
                    =~= assertions_of(output@));
            }
            listed = listed || marker;
            i = e + 1;
        } else {
            assert(result.deep_view() =~= assertions_of(output@));
            return result;
        }
    }
}

/// The power source read from the text: the first of the two source markers
/// that occurs anywhere in it, `Unknown` if neither does.
pub open spec fn source_of(s: Seq<char>) -> Seq<char> {
    if contains_seq(s, "AC Power"@) {
        "AC Power"@
    } else if contains_seq(s, "Battery Power"@) {
        "Battery"@
    } else {
        "Unknown"@
    }
}

/// Reads the power source out of the settings text.
pub fn parse_power_source(output: &str) -> (r: String)
    ensures
        r@ == source_of(output@),
{
    if contains_sub(output, "AC Power") {
        String::from_str("AC Power")
    } else if contains_sub(output, "Battery Power") {
        String::from_str("Battery")
    } else {
        String::from_str("Unknown")
    }
}

/// Builds the power profile from the two texts the power tool prints: the
/// general settings and the assertion listing. The shell invokes the tool;
/// everything read out of the texts is specified exactly.
pub fn get_power_profile(settings: &str, assertion_listing: &str) -> (r: PowerProfile)
    ensures
        r.source@ == source_of(settings@),
        r.display_sleep == pmset_value_of(settings@, "displaysleep"@),
        r.disk_sleep == pmset_value_of(settings@, "disksleep"@),
        r.system_sleep == pmset_value_of(settings@, "sleep"@),
        r.assertions.deep_view() == assertions_of(assertion_listing@),
{
    let source = parse_power_source(settings);
    let display_sleep = parse_pmset_value(settings, "displaysleep");
    let disk_sleep = parse_pmset_value(settings, "disksleep");
    let system_sleep = parse_pmset_value(settings, "sleep");
    let assertions = parse_assertions(assertion_listing);
    PowerProfile { source, display_sleep, disk_sleep, system_sleep, assertions }
}

/// The handle currently held, read from the session record; 0 if none.
pub fn get_current_assertion_id(state: &AppState) -> (r: u32)
    ensures
        r == state.assertion_id,
{
    state.assertion_id
}

/// Whether an assertion is currently held.
pub fn has_active_assertion(state: &AppState) -> (r: bool)
    ensures
        r == (state.assertion_id != 0),
{
    get_current_assertion_id(state) != 0
}

} // verus!
