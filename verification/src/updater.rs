//! The decisions of the updater, the program that replaces the launcher's
//! executable with a downloaded one and starts it.

use vstd::prelude::*;
use crate::text::{str_eq, string_views};

verus! {

/// How many times the updater tries to replace the launcher.
pub const UPDATE_ATTEMPTS: u32 = 10;

/// The argument that follows the first occurrence of `name`.
pub open spec fn argument_value(args: Seq<Seq<char>>, name: Seq<char>) -> Option<Seq<char>>
    decreases args.len(),
{
    if args.len() < 2 {
        None
    } else if args[0] == name {
        Some(args[1])
    } else {
        argument_value(args.drop_first(), name)
    }
}

/// What the updater does after an attempt to replace the launcher.
#[derive(Debug, Clone, Copy, PartialEq, Eq, Structural)]
pub enum NextStep {
    /// The launcher was replaced: start it.
    StartLauncher,
    /// The attempt failed: pause, then try again.
    Retry,
    /// The last attempt failed: pause, then report the failure and stop.
    GiveUp,
}

/// The step after attempt number `attempt` (counted from 0).
pub open spec fn next_step(attempt: u32, succeeded: bool) -> NextStep {
    if succeeded {
        NextStep::StartLauncher
    } else if attempt + 1 < UPDATE_ATTEMPTS {
        NextStep::Retry
    } else {
        NextStep::GiveUp
    }
}

/// The argument that follows the first occurrence of `name` among the
/// program's arguments (`args` with the program name first), as the
/// updater reads `--url` and `--target`.
pub fn argument(args: &Vec<String>, name: &str) -> (value: Option<String>)
    ensures
        match value {
            Some(v) => argument_value(string_views(args@), name@) == Some(v@),
            None => argument_value(string_views(args@), name@) is None,
        },
{
    let n = args.len();
    let mut i: usize = 0;
    let ghost all = string_views(args@);
    assert(all.subrange(0, n as int) =~= all);
    while i + 1 < n
        invariant
            n == args@.len(),
            all == string_views(args@),
            i == 0 || i < n,
            argument_value(all, name@) == argument_value(all.subrange(i as int, n as int), name@),
        decreases n - i,
    {
        let ghost rest = all.subrange(i as int, n as int);
        assert(rest[0] == args@[i as int]@ && rest[1] == args@[i + 1]@);
        if str_eq(args[i].as_str(), name) {
            return Some(args[i + 1].clone());
        }
        assert(rest.drop_first() =~= all.subrange(i + 1, n as int));
        i = i + 1;
    }
    None
}

/// What the updater does after attempt number `attempt` (counted from 0):
/// start the new launcher after a success; after a failure, try again
/// until ten attempts have failed.
pub fn after_attempt(attempt: u32, succeeded: bool) -> (step: NextStep)
    requires
        attempt < UPDATE_ATTEMPTS,
    ensures
        step == next_step(attempt, succeeded),
{
    if succeeded {
        NextStep::StartLauncher
    } else if attempt + 1 < UPDATE_ATTEMPTS {
        NextStep::Retry
    } else {
        NextStep::GiveUp
    }
}

/// The value found is the argument right after the first argument equal to
/// the name, provided one follows it; there is none exactly when no
/// argument but the last equals the name.
pub proof fn lemma_argument_value_is_first_match(args: Seq<Seq<char>>, name: Seq<char>)
    ensures
        argument_value(args, name) is None <==> forall|i: int|
            0 <= i && i + 1 < args.len() ==> #[trigger] args[i] != name,
        forall|i: int|
            0 <= i && i + 1 < args.len() && #[trigger] args[i] == name && (forall|j: int|
                0 <= j < i ==> args[j] != name) ==> argument_value(args, name) == Some(args[i + 1]),
    decreases args.len(),
{
    if args.len() >= 2 {
        let rest = args.drop_first();
        lemma_argument_value_is_first_match(rest, name);
        assert forall|i: int| 0 < i < args.len() implies args[i] == rest[i - 1] by {}
        if args[0] != name {
            assert forall|i: int|
                0 <= i && i + 1 < args.len() && #[trigger] args[i] == name && (forall|j: int|
                    0 <= j < i ==> args[j] != name) implies argument_value(args, name) == Some(
                args[i + 1],
            ) by {
                assert(i > 0);
                assert(rest[i - 1] == args[i]);
                assert(rest[i] == args[i + 1]);
                assert forall|j: int| 0 <= j < i - 1 implies rest[j] != name by {
                    assert(rest[j] == args[j + 1]);
                }
            }
            if argument_value(args, name) is None {
                assert forall|i: int| 0 <= i && i + 1 < args.len() implies #[trigger] args[i]
                    != name by {
                    if i > 0 {
                        assert(rest[i - 1] == args[i]);
                    }
                }
            } else {
                let k = choose|k: int| 0 <= k && k + 1 < rest.len() && #[trigger] rest[k] == name;
                assert(args[k + 1] == rest[k]);
            }
        }
    }
}

/// Retrying ends: a failed attempt is retried exactly when fewer than ten
/// attempts were made, so no attempt number reaches ten.
pub proof fn lemma_attempts_are_bounded(attempt: u32)
    requires
        attempt < UPDATE_ATTEMPTS,
    ensures
        next_step(attempt, false) == NextStep::Retry ==> attempt + 1 < UPDATE_ATTEMPTS,
        attempt == UPDATE_ATTEMPTS - 1 ==> next_step(attempt, false) == NextStep::GiveUp,
{
}

} // verus!
