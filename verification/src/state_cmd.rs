//! Backend selection state: the user's choice and the backends seen.
use vstd::prelude::*;

use crate::text::{concat2, str_eq};
use crate::tools::{available_backends_any, available_from};

verus! {

/// Choices the settings accept. "docker" serves video super-resolution
/// only and is never picked by "auto".
pub open spec fn spec_valid_choices() -> Seq<Seq<char>> {
    seq!["auto"@, "cuda"@, "dml"@, "vulkan"@, "coreml"@, "cpu"@, "docker"@]
}

pub open spec fn is_valid_choice(c: Seq<char>) -> bool {
    exists|i: int| 0 <= i < spec_valid_choices().len() && #[trigger] spec_valid_choices()[i] == c
}

fn valid_choices() -> (v: Vec<&'static str>)
    ensures
        v@.len() == spec_valid_choices().len(),
        forall|i: int| 0 <= i < v@.len() ==> #[trigger] v@[i]@ == spec_valid_choices()[i],
{
    vec!["auto", "cuda", "dml", "vulkan", "coreml", "cpu", "docker"]
}

/// Whether `c` is one of the accepted backend choices.
pub fn valid_choice(c: &str) -> (r: bool)
    ensures
        r == is_valid_choice(c@),
{
    let v = valid_choices();
    let mut i: usize = 0;
    while i < v.len()
        invariant
            i <= v@.len(),
            v@.len() == spec_valid_choices().len(),
            forall|k: int| 0 <= k < v@.len() ==> #[trigger] v@[k]@ == spec_valid_choices()[k],
            forall|k: int| 0 <= k < i ==> spec_valid_choices()[k] != c@,
        decreases v@.len() - i,
    {
        if str_eq(v[i], c) {
            return true;
        }
        i = i + 1;
    }
    false
}

/// The application's backend state.
pub struct AppState {
    pub backend_choice: String,
    /// Backends seen at startup.
    pub available_backends: Vec<String>,
}

/// What the settings screen shows.
pub struct BackendState {
    pub choice: String,
    pub available: Vec<String>,
}

/// The message for a rejected choice.
pub open spec fn unknown_backend_message(c: Seq<char>) -> Seq<char> {
    "unknown backend: "@ + c
}

/// The backend state: the current choice, and the backends available now
/// among `present` (the file names next to the executable, scanned anew on
/// each call so that freshly built sidecars show up).
pub fn get_backend_state(state: &AppState, present: &Vec<String>, windows: bool) -> (r:
    BackendState)
    ensures
        r.choice@ == state.backend_choice@,
        r.available@.len() == available_from(present@, windows, 0).len(),
        forall|i: int|
            0 <= i < r.available@.len() ==> #[trigger] r.available@[i]@ == available_from(
                present@,
                windows,
                0,
            )[i],
{
    BackendState {
        choice: state.backend_choice.clone(),
        available: available_backends_any(present, windows),
    }
}

/// Record the user's backend choice; an unknown choice is refused with its
/// message and leaves the state unchanged. (Persisting the choice to the
/// configuration file is the caller's part.)
pub fn set_backend_choice(state: &mut AppState, choice: &str) -> (r: Result<(), String>)
    ensures
        r is Ok <==> is_valid_choice(choice@),
        final(state).backend_choice@ == choice_after_set(old(state).backend_choice@, choice@),
        r matches Err(m) ==> m@ == unknown_backend_message(choice@),
        final(state).available_backends@ == old(state).available_backends@,
{
    if !valid_choice(choice) {
        return Err(concat2("unknown backend: ", choice));
    }
    state.backend_choice = String::from_str(choice);
    Ok(())
}

/// What a set does to the choice: a valid choice replaces it, anything else
/// leaves it.
pub open spec fn choice_after_set(current: Seq<char>, choice: Seq<char>) -> Seq<char> {
    if is_valid_choice(choice) {
        choice
    } else {
        current
    }
}

/// Setting a valid choice and then reading the state gives that choice
/// back; setting an invalid one gives back the previous choice. Setting the
/// same choice twice is the same as setting it once.
pub proof fn lemma_set_then_get(current: Seq<char>, choice: Seq<char>)
    ensures
        is_valid_choice(choice) ==> choice_after_set(current, choice) == choice,
        !is_valid_choice(choice) ==> choice_after_set(current, choice) == current,
        choice_after_set(choice_after_set(current, choice), choice) == choice_after_set(
            current,
            choice,
        ),
{
}

} // verus!
