//! How the batch workers are framed and torn down.
use crate::blc::BinaryLinesCodec;
use vstd::prelude::*;

verus! {

/// The longest line read back from a worker.
pub const MAX_INPUT_LEN: usize = 65535;

/// How long a worker that is told to stop may take before it is killed.
pub const ERR_TIMEOUT_SECS: u64 = 3;

/// The framing of what is written to a worker: lines of any length.
pub fn stdin_codec() -> (r: BinaryLinesCodec)
    ensures
        r.max_len() == usize::MAX,
        !r.discarding(),
        forall|s: Seq<u8>| #[trigger] r.ready_for(s),
{
    BinaryLinesCodec::new()
}

/// The framing of what a worker writes back: lines of at most
/// `MAX_INPUT_LEN` bytes.
pub fn stdout_codec() -> (r: BinaryLinesCodec)
    ensures
        r.max_len() == MAX_INPUT_LEN,
        !r.discarding(),
        forall|s: Seq<u8>| #[trigger] r.ready_for(s),
{
    BinaryLinesCodec::new_with_max_length(MAX_INPUT_LEN)
}

/// How a worker is stopped once the work with it is over.
#[derive(Clone, Copy, Debug, Eq, PartialEq, Structural)]
pub enum Teardown {
    /// Wait for it to exit by itself, however long that takes.
    Wait,
    /// Ask it to terminate, wait at most this many seconds, then kill it.
    Terminate { grace_secs: u64 },
}

/// The teardown `teardown_for` chooses.
pub open spec fn teardown_for_spec(ok: bool) -> Teardown {
    if ok {
        Teardown::Wait
    } else {
        Teardown::Terminate { grace_secs: ERR_TIMEOUT_SECS }
    }
}

/// The longest a forced teardown waits; none for a plain wait.
pub open spec fn grace(t: Teardown) -> nat {
    match t {
        Teardown::Wait => 0,
        Teardown::Terminate { grace_secs } => grace_secs as nat,
    }
}

/// How to stop a worker after the work with it ended well (`ok`) or not.
pub fn teardown_for(ok: bool) -> (r: Teardown)
    ensures
        r == teardown_for_spec(ok),
{
    if ok {
        Teardown::Wait
    } else {
        Teardown::Terminate { grace_secs: ERR_TIMEOUT_SECS }
    }
}

/// On a forced shutdown each worker gets at most the grace period, so the
/// three workers together wait at most three times as long.
pub proof fn lemma_forced_shutdown_bounded(a: Teardown, b: Teardown, c: Teardown)
    requires
        a == teardown_for_spec(false),
        b == teardown_for_spec(false),
        c == teardown_for_spec(false),
    ensures
        grace(a) + grace(b) + grace(c) <= 3 * ERR_TIMEOUT_SECS,
{
}

} // verus!
