use vstd::prelude::*;
use crate::analytics::record_spec;
use crate::error::CoreError;
use crate::progression::award_spec;
use crate::store::{UserStore, get_or_create_spec};
use crate::user::{CommandUsed, User, UserModel};

verus! {

/// What kind of inbound event started an invocation.
#[derive(Debug, Clone, Copy, PartialEq, Eq, Structural)]
pub enum EventKind {
    SlashCommand,
    Message,
}

/// The steps of one invocation. `Failed` can be reached from every step
/// before `Done`; `Done` and `Failed` are final.
#[derive(Debug, Clone, Copy, PartialEq, Eq, Structural)]
pub enum Phase {
    Received,
    Resolved,
    Progressed,
    Executed,
    Logged,
    /// Saving; the number is how many save attempts have failed so far.
    Persisting(u32),
    Done,
    Failed(CoreError),
}

/// How saves that fail with a transient error are retried.
#[derive(Debug, Clone, Copy, PartialEq, Eq, Structural)]
pub struct RetryPolicy {
    /// Save attempts in all, the first included.
    pub max_attempts: u32,
    /// Wait before the first retry, in milliseconds.
    pub base_delay_ms: u64,
    /// Longest wait between two attempts, in milliseconds.
    pub max_delay_ms: u64,
}

/// The wait before retry number `attempt + 1`: the base delay doubled
/// `attempt` times, held at the cap.
pub open spec fn backoff_spec(base: int, cap: int, attempt: nat) -> int
    decreases attempt,
{
    if attempt == 0 {
        if base <= cap {
            base
        } else {
            cap
        }
    } else {
        let prev = backoff_spec(base, cap, (attempt - 1) as nat);
        if 2 * prev <= cap {
            2 * prev
        } else {
            cap
        }
    }
}

/// The step after `phase`, given the outcome of the work done in it.
pub open spec fn advance_spec(
    policy: RetryPolicy,
    phase: Phase,
    kind: EventKind,
    outcome: Result<(), CoreError>,
) -> Phase {
    match phase {
        Phase::Done => Phase::Done,
        Phase::Failed(e) => Phase::Failed(e),
        Phase::Persisting(failed) => match outcome {
            Ok(()) => Phase::Done,
            Err(e) => if e.is_transient() && failed + 1 < policy.max_attempts {
                Phase::Persisting((failed + 1) as u32)
            } else {
                Phase::Failed(e)
            },
        },
        _ => match outcome {
            Err(e) => Phase::Failed(e),
            Ok(()) => match phase {
                Phase::Received => Phase::Resolved,
                Phase::Resolved => if kind == EventKind::Message {
                    Phase::Progressed
                } else {
                    Phase::Executed
                },
                Phase::Progressed => Phase::Executed,
                Phase::Executed => Phase::Logged,
                _ => Phase::Persisting(0),
            },
        },
    }
}

/// The wait, in milliseconds, before retry number `attempt + 1`.
pub fn backoff_delay(policy: &RetryPolicy, attempt: u32) -> (r: u64)
    ensures
        r == backoff_spec(policy.base_delay_ms as int, policy.max_delay_ms as int, attempt as nat),
{
    let cap = policy.max_delay_ms;
    let mut d: u64 = if policy.base_delay_ms <= cap {
        policy.base_delay_ms
    } else {
        cap
    };
    let mut i: u32 = 0;
    while i < attempt
        invariant
            i <= attempt,
            d <= cap,
            d == backoff_spec(policy.base_delay_ms as int, cap as int, i as nat),
        decreases attempt - i,
    {
        d = if d <= cap / 2 {
            2 * d
        } else {
            cap
        };
        i += 1;
    }
    d
}

/// The step after `phase` once its work ended with `outcome`. A failed
/// save with a transient error is tried again while the policy allows;
/// any other error ends the invocation as failed.
pub fn advance(policy: &RetryPolicy, phase: Phase, kind: EventKind, outcome: Result<(), CoreError>) -> (r: Phase)
    ensures
        r == advance_spec(*policy, phase, kind, outcome),
{
    match phase {
        Phase::Done => Phase::Done,
        Phase::Failed(e) => Phase::Failed(e),
        Phase::Persisting(failed) => match outcome {
            Ok(()) => Phase::Done,
            Err(e) => {
                if e.retryable() && failed < policy.max_attempts && failed + 1 < policy.max_attempts {
                    Phase::Persisting(failed + 1)
                } else {
                    Phase::Failed(e)
                }
            },
        },
        _ => match outcome {
            Err(e) => Phase::Failed(e),
            Ok(()) => match phase {
                Phase::Received => Phase::Resolved,
                Phase::Resolved => if kind == EventKind::Message {
                    Phase::Progressed
                } else {
                    Phase::Executed
                },
                Phase::Progressed => Phase::Executed,
                Phase::Executed => Phase::Logged,
                _ => Phase::Persisting(0),
            },
        },
    }
}

/// Whether `phase` is final.
pub fn is_finished(phase: Phase) -> (r: bool)
    ensures
        r == (phase is Done || phase is Failed),
{
    match phase {
        Phase::Done | Phase::Failed(_) => true,
        _ => false,
    }
}

/// A save that keeps failing with a transient error is given up after
/// `max_attempts` attempts, and an error that is not transient is never
/// retried.
pub proof fn lemma_retries_bounded(policy: RetryPolicy, failed: u32, kind: EventKind, e: CoreError)
    ensures
        advance_spec(policy, Phase::Persisting(failed), kind, Err(e)) is Persisting ==> e.is_transient()
            && failed + 1 < policy.max_attempts,
        failed + 1 >= policy.max_attempts ==> advance_spec(policy, Phase::Persisting(failed), kind, Err(e))
            == Phase::Failed(e),
{
}

/// An invocation is only done once a save has succeeded, and an error at
/// any step before `Done` either ends it as failed with that error or, for a
/// transient error while saving, leads to another save attempt.
pub proof fn lemma_done_only_after_save(
    policy: RetryPolicy,
    phase: Phase,
    kind: EventKind,
    outcome: Result<(), CoreError>,
)
    ensures
        advance_spec(policy, phase, kind, outcome) is Done ==> phase is Done || (phase is Persisting
            && outcome is Ok),
        outcome is Err && !(phase is Done) && !(phase is Failed) ==> advance_spec(
            policy,
            phase,
            kind,
            outcome,
        ) == Phase::Failed(outcome->Err_0) || (phase is Persisting && outcome->Err_0.is_transient()
            && advance_spec(policy, phase, kind, outcome) is Persisting),
{
}

/// The record handed to the command body: the account resolved (created
/// when new) and, for a message, the message credited.
pub open spec fn begun_spec(m: Map<u64, UserModel>, id: u64, kind: EventKind, now: int) -> UserModel {
    let u = get_or_create_spec(m, id)[id];
    if kind == EventKind::Message {
        award_spec(u, now)
    } else {
        u
    }
}

/// Resolves the invoking account and, for a message, credits it: the
/// `Resolved` and `Progressed` steps.
pub fn begin_invocation(store: &mut UserStore, id: u64, kind: EventKind, now: i64) -> (r: User)
    ensures
        final(store)@ == get_or_create_spec(old(store)@, id),
        r@ == begun_spec(old(store)@, id, kind, now as int),
        old(store).wf() ==> final(store).wf() && r@.wf() && r.id == id,
{
    let (mut user, _created) = store.get_or_create(id);
    if kind == EventKind::Message {
        user.award_message_xp(now);
    }
    user
}

/// Records the command in the user's history and stores the record: the
/// `Logged` step and the in-process half of `Persisted`.
pub fn finish_invocation(store: &mut UserStore, user: User, command_id: u64, command: String, now: i64) -> (r: User)
    requires
        user@.wf(),
    ensures
        r@ == (UserModel {
            last_command_list: record_spec(
                user@.last_command_list,
                CommandUsed { id: command_id, command, timestamp: now },
            ),
            ..user@
        }),
        r@.wf(),
        final(store)@ == old(store)@.insert(user.id, r@),
        old(store).wf() ==> final(store).wf(),
{
    let mut user = user;
    user.record(command_id, command, now);
    let copy = user.duplicate();
    store.save(user);
    copy
}

} // verus!
