//! Where full error messages are kept: the error toast only has room for
//! a few lines, so each error is also written, whole, to a log file
//! under the platform's state directory.
use vstd::prelude::*;

use crate::config::{join_path, join_spec};
use crate::text::{decimal, push_decimal_u64};

verus! {

/// `nrc/errors.log` under `state_dir`.
pub open spec fn log_path_spec(state_dir: Seq<char>) -> Seq<char> {
    join_spec(join_spec(state_dir, "nrc"@), "errors.log"@)
}

/// The hint that points at the log file, or nothing without one.
pub open spec fn hint_spec(path: Option<Seq<char>>) -> Seq<char> {
    match path {
        Some(p) => " (full error: "@ + p + ")"@,
        None => Seq::empty(),
    }
}

/// A logged line: the time in seconds since the epoch in brackets, then
/// the message.
pub open spec fn log_line_spec(now: u64, message: Seq<char>) -> Seq<char> {
    seq!['['] + decimal(now as nat) + "] "@ + message
}

/// Calls `dirs::state_dir`: the user's state directory, if the platform
/// has one, as text (`to_string_lossy`). Nothing is claimed of the result:
/// it comes from the environment.
#[verifier::external_body]
fn user_state_dir() -> (r: Option<String>) {
    match dirs::state_dir() {
        Some(p) => Some(p.to_string_lossy().into_owned()),
        None => None,
    }
}

/// The log file under `state_dir`, or none without a state directory.
pub fn path_in(state_dir: Option<&str>) -> (r: Option<String>)
    ensures
        match state_dir {
            Some(d) => r matches Some(p) && p@ == log_path_spec(d@),
            None => r is None,
        },
{
    match state_dir {
        Some(d) => {
            let dir = join_path(d, "nrc");
            Some(join_path(dir.as_str(), "errors.log"))
        },
        None => None,
    }
}

/// The log file, `nrc/errors.log` under the platform's state directory,
/// or none where the platform has no state directory. Which directory
/// that is depends on the environment.
pub fn path() -> (r: Option<String>)
    ensures
        r matches Some(p) ==> exists|d: Seq<char>| p@ == log_path_spec(d),
{
    let dir = user_state_dir();
    match dir {
        Some(d) => path_in(Some(d.as_str())),
        None => None,
    }
}

/// A short suffix naming the log file, to append to what is shown to the
/// user, or nothing when there is no log file.
pub fn hint_for(path: Option<&str>) -> (r: String)
    ensures
        r@ == hint_spec(
            match path {
                Some(p) => Some(p@),
                None => None,
            },
        ),
{
    match path {
        Some(p) => {
            let mut s = String::from_str(" (full error: ");
            s.append(p);
            s.append(")");
            s
        },
        None => String::new(),
    }
}

/// The suffix naming the log file, or nothing without one.
pub fn hint() -> (r: String)
    ensures
        r@.len() == 0 || exists|d: Seq<char>| r@ == #[trigger] hint_spec(Some(log_path_spec(d))),
{
    let dir = user_state_dir();
    match dir {
        Some(d) => {
            let p = path_in(Some(d.as_str()));
            let p = p.unwrap();
            let r = hint_for(Some(p.as_str()));
            assert(r@ == hint_spec(Some(log_path_spec(d@))));
            r
        },
        None => hint_for(None),
    }
}

/// The line written to the log for `message` at `now`.
pub fn log_line(now: u64, message: &str) -> (r: String)
    ensures
        r@ == log_line_spec(now, message@),
{
    let mut s = String::new();
    crate::keymap::push_char(&mut s, '[');
    push_decimal_u64(&mut s, now);
    s.append("] ");
    s.append(message);
    assert(s@ =~= log_line_spec(now, message@));
    s
}

} // verus!
