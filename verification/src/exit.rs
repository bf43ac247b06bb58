//! Process-wide exit requests.
//!
//! An exit request holds at most one exit code. A code of zero may later be
//! upgraded to a nonzero one, but a nonzero code, once requested, is kept.

use vstd::prelude::*;

verus! {

/// The exit request after asking for `code` when `current` was requested:
/// the code is recorded when nothing was requested yet or zero was, and an
/// earlier nonzero code stands.
pub open spec fn after_set(current: Option<i32>, code: i32) -> Option<i32> {
    if current == None::<i32> || current == Some(0i32) {
        Some(code)
    } else {
        current
    }
}

/// State of the exit request of a process.
pub struct ExitState {
    code: Option<i32>,
}

impl ExitState {
    /// The requested exit code, if any.
    pub closed spec fn view(self) -> Option<i32> {
        self.code
    }

    /// A state in which no exit has been requested.
    pub fn new() -> (s: Self)
        ensures
            s.view() == None::<i32>,
    {
        ExitState { code: None }
    }
}

/// Get the current exit code for the process. If no exit has been requested,
/// then `None` is returned.
pub fn get(state: &ExitState) -> (code: Option<i32>)
    ensures
        code == state.view(),
{
    state.code
}

/// Request the process to exit with the given exit code.
///
/// The code is recorded when no exit was requested yet, or when the code
/// requested before was zero; otherwise the earlier code stands.
pub fn set(state: &mut ExitState, code: i32)
    ensures
        final(state).view() == after_set(old(state).view(), code),
{
    match state.code {
        None | Some(0) => {
            state.code = Some(code);
        },
        _ => {},
    }
}

/// Once a nonzero exit code is recorded, no later request changes it: after
/// a request for a nonzero `code`, any sequence of later requests leaves the
/// exit request as that one made it.
pub proof fn lemma_nonzero_exit_code_is_kept(current: Option<i32>, code: i32, later: Seq<i32>)
    requires
        code != 0,
    ensures
        later.fold_left(after_set(current, code), |acc: Option<i32>, c: i32| after_set(acc, c))
            == after_set(current, code),
    decreases later.len(),
{
    if later.len() > 0 {
        lemma_nonzero_exit_code_is_kept(current, code, later.drop_last());
    }
}

/// The status a process ends with for a requested exit code: the low eight
/// bits of the code, which is what the system reports of it.
pub fn exit_status(code: i32) -> (status: u8)
    ensures
        status == code as u8,
{
    code as u8
}

} // verus!
